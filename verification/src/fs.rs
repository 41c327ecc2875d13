//! Filesystem metadata store: the inode table, path resolution, and the
//! structural invariants that journal recovery (`fsck`) re-establishes.
//!
//! Inode numbers index a table of tagged inodes; every directory carries its
//! own name-to-inode dictionary, always including `.` and `..`.  A
//! directory's link count equals one plus the number of entries in its
//! dictionary (so `.`, `..` and every child each contribute one link, and the
//! extra one pins the directory so a reachable directory never appears
//! orphaned).  `nextinode` stays strictly above every inode number in the
//! table.

use vstd::prelude::*;

verus! {

// POSIX mode bits recorded in inodes.
pub const S_IFCHR: u32 = 0o020000;
pub const S_IFDIR: u32 = 0o040000;
pub const S_IFSOCK: u32 = 0o140000;
pub const S_FILETYPEFLAGS: u32 = 0o170000;
pub const S_IRWXA: u32 = 0o777;

pub const DEFAULT_UID: u32 = 1000;
pub const DEFAULT_GID: u32 = 1000;

pub const ROOTDIRECTORYINODE: usize = 1;

/// Machine cap on directory dictionary size, far above anything reachable,
/// so that link counts always fit in a `u32`.
pub const DIRTABLE_CAP: usize = 0x1000000;

/// Machine cap on inode numbers, so that allocating one more never wraps.
pub const NEXTINODE_CAP: usize = 0x40000000;

/// Machine cap on the length of one file name, so that names survive
/// serialization with a fixed-width length prefix.
pub const NAME_CAP: usize = 0x8000;

/// Character-device major/minor numbers.
#[derive(Clone, Copy, PartialEq, Eq, Structural, Debug)]
pub struct DevNo {
    pub major: u32,
    pub minor: u32,
}

/// Common inode fields for regular files; `refcount` is never persisted.
#[derive(Clone, Copy, Debug)]
pub struct GenericInode {
    pub size: usize,
    pub uid: u32,
    pub gid: u32,
    pub mode: u32,
    pub linkcount: u32,
    pub refcount: u32,
    pub atime: u64,
    pub ctime: u64,
    pub mtime: u64,
}

#[derive(Clone, Copy, Debug)]
pub struct DeviceInode {
    pub size: usize,
    pub uid: u32,
    pub gid: u32,
    pub mode: u32,
    pub linkcount: u32,
    pub refcount: u32,
    pub atime: u64,
    pub ctime: u64,
    pub mtime: u64,
    pub dev: DevNo,
}

#[derive(Clone, Copy, Debug)]
pub struct SocketInode {
    pub size: usize,
    pub uid: u32,
    pub gid: u32,
    pub mode: u32,
    pub linkcount: u32,
    pub refcount: u32,
    pub atime: u64,
    pub ctime: u64,
    pub mtime: u64,
}

/// One entry of a directory's dictionary: a file name mapped to an inode
/// number.
#[derive(Debug)]
pub struct DirEntry {
    pub name: Vec<u8>,
    pub inode: usize,
}

#[derive(Debug)]
pub struct DirectoryInode {
    pub size: usize,
    pub uid: u32,
    pub gid: u32,
    pub mode: u32,
    pub linkcount: u32,
    pub refcount: u32,
    pub atime: u64,
    pub ctime: u64,
    pub mtime: u64,
    pub filename_to_inode_dict: Vec<DirEntry>,
}

#[derive(Debug)]
pub enum Inode {
    File(GenericInode),
    CharDev(DeviceInode),
    Socket(SocketInode),
    Dir(DirectoryInode),
}

/// One row of the inode table.
#[derive(Debug)]
pub struct InodePair {
    pub num: usize,
    pub inode: Inode,
}

/// The process-wide filesystem metadata: the next free inode number, the
/// device id, and the inode table.
#[derive(Debug)]
pub struct FilesystemMetadata {
    pub nextinode: usize,
    pub dev_id: u64,
    pub inodetable: Vec<InodePair>,
}

// ---------------------------------------------------------------------------
// Mathematical views of the metadata.
// ---------------------------------------------------------------------------

pub ghost struct DirEntryV {
    pub name: Seq<u8>,
    pub inode: usize,
}

pub ghost struct DirectoryInodeV {
    pub size: usize,
    pub uid: u32,
    pub gid: u32,
    pub mode: u32,
    pub linkcount: u32,
    pub refcount: u32,
    pub atime: u64,
    pub ctime: u64,
    pub mtime: u64,
    pub dict: Seq<DirEntryV>,
}

pub ghost enum InodeV {
    File(GenericInode),
    CharDev(DeviceInode),
    Socket(SocketInode),
    Dir(DirectoryInodeV),
}

pub ghost struct InodePairV {
    pub num: usize,
    pub inode: InodeV,
}

pub ghost struct FilesystemMetadataV {
    pub nextinode: usize,
    pub dev_id: u64,
    pub inodetable: Seq<InodePairV>,
}

impl View for DirEntry {
    type V = DirEntryV;

    open spec fn view(&self) -> DirEntryV {
        DirEntryV { name: self.name@, inode: self.inode }
    }
}

pub open spec fn dict_v(s: Seq<DirEntry>) -> Seq<DirEntryV> {
    s.map_values(|e: DirEntry| e@)
}

impl View for DirectoryInode {
    type V = DirectoryInodeV;

    open spec fn view(&self) -> DirectoryInodeV {
        DirectoryInodeV {
            size: self.size,
            uid: self.uid,
            gid: self.gid,
            mode: self.mode,
            linkcount: self.linkcount,
            refcount: self.refcount,
            atime: self.atime,
            ctime: self.ctime,
            mtime: self.mtime,
            dict: dict_v(self.filename_to_inode_dict@),
        }
    }
}

impl View for Inode {
    type V = InodeV;

    open spec fn view(&self) -> InodeV {
        match self {
            Inode::File(g) => InodeV::File(*g),
            Inode::CharDev(g) => InodeV::CharDev(*g),
            Inode::Socket(g) => InodeV::Socket(*g),
            Inode::Dir(d) => InodeV::Dir(d@),
        }
    }
}

impl View for InodePair {
    type V = InodePairV;

    open spec fn view(&self) -> InodePairV {
        InodePairV { num: self.num, inode: self.inode@ }
    }
}

pub open spec fn tbl_v(s: Seq<InodePair>) -> Seq<InodePairV> {
    s.map_values(|p: InodePair| p@)
}

impl View for FilesystemMetadata {
    type V = FilesystemMetadataV;

    open spec fn view(&self) -> FilesystemMetadataV {
        FilesystemMetadataV {
            nextinode: self.nextinode,
            dev_id: self.dev_id,
            inodetable: tbl_v(self.inodetable@),
        }
    }
}

// ---------------------------------------------------------------------------
// Lookup functions over the views.
// ---------------------------------------------------------------------------

/// The inode stored under number `n`, going by the first matching row.
pub open spec fn tbl_lookup(s: Seq<InodePairV>, n: usize) -> Option<InodeV>
    decreases s.len(),
{
    if s.len() == 0 {
        None
    } else if s[0].num == n {
        Some(s[0].inode)
    } else {
        tbl_lookup(s.skip(1), n)
    }
}

pub open spec fn tbl_has(s: Seq<InodePairV>, n: usize) -> bool {
    tbl_lookup(s, n) is Some
}

/// The inode number a directory dictionary maps `name` to.
pub open spec fn dict_lookup(s: Seq<DirEntryV>, name: Seq<u8>) -> Option<usize>
    decreases s.len(),
{
    if s.len() == 0 {
        None
    } else if s[0].name == name {
        Some(s[0].inode)
    } else {
        dict_lookup(s.skip(1), name)
    }
}

pub open spec fn tbl_unique(s: Seq<InodePairV>) -> bool {
    forall|i: int, j: int| 0 <= i < j < s.len() ==> s[i].num != s[j].num
}

pub open spec fn dict_unique(s: Seq<DirEntryV>) -> bool {
    forall|i: int, j: int| 0 <= i < j < s.len() ==> s[i].name != s[j].name
}

// ---------------------------------------------------------------------------
// Lemmas connecting lookups to index-wise updates.
// ---------------------------------------------------------------------------

pub proof fn lemma_tbl_lookup_skip(s: Seq<InodePairV>, n: usize, i: int)
    requires
        0 <= i <= s.len(),
        forall|j: int| 0 <= j < i ==> s[j].num != n,
    ensures
        tbl_lookup(s, n) == tbl_lookup(s.skip(i), n),
    decreases i,
{
    if i > 0 {
        assert(s.skip(1).skip(i - 1) =~= s.skip(i));
        lemma_tbl_lookup_skip(s.skip(1), n, i - 1);
    } else {
        assert(s.skip(0) =~= s);
    }
}

/// A matching row at index `i`, with no earlier match, is what lookup finds.
pub proof fn lemma_tbl_lookup_at(s: Seq<InodePairV>, n: usize, i: int)
    requires
        0 <= i < s.len(),
        s[i].num == n,
        forall|j: int| 0 <= j < i ==> s[j].num != n,
    ensures
        tbl_lookup(s, n) == Some(s[i].inode),
{
    lemma_tbl_lookup_skip(s, n, i);
    assert(s.skip(i)[0] == s[i]);
}

pub proof fn lemma_tbl_lookup_none(s: Seq<InodePairV>, n: usize)
    requires
        forall|j: int| 0 <= j < s.len() ==> s[j].num != n,
    ensures
        tbl_lookup(s, n) is None,
    decreases s.len(),
{
    if s.len() > 0 {
        lemma_tbl_lookup_none(s.skip(1), n);
    }
}

/// An absent key has no row at all.
pub proof fn lemma_tbl_none_no_index(s: Seq<InodePairV>, n: usize)
    requires
        tbl_lookup(s, n) is None,
    ensures
        forall|j: int| 0 <= j < s.len() ==> s[j].num != n,
    decreases s.len(),
{
    if s.len() > 0 {
        lemma_tbl_none_no_index(s.skip(1), n);
        assert forall|j: int| 0 <= j < s.len() implies s[j].num != n by {
            if j > 0 {
                assert(s.skip(1)[j - 1].num != n);
            }
        }
    }
}

/// Updating the first matching row changes only that key's binding.
pub proof fn lemma_tbl_lookup_update(s: Seq<InodePairV>, n: usize, i: int, v: InodePairV, m: usize)
    requires
        0 <= i < s.len(),
        s[i].num == n,
        forall|j: int| 0 <= j < i ==> s[j].num != n,
        v.num == n,
    ensures
        tbl_lookup(s.update(i, v), m) == if m == n {
            Some(v.inode)
        } else {
            tbl_lookup(s, m)
        },
    decreases i,
{
    let t = s.update(i, v);
    if i == 0 {
        if m != n {
            assert(t.skip(1) =~= s.skip(1));
        }
    } else {
        assert(t.skip(1) =~= s.skip(1).update(i - 1, v));
        lemma_tbl_lookup_update(s.skip(1), n, i - 1, v, m);
    }
}

/// Appending a row for an absent key adds exactly that binding.
pub proof fn lemma_tbl_lookup_push(s: Seq<InodePairV>, v: InodePairV, m: usize)
    requires
        tbl_lookup(s, v.num) is None,
    ensures
        tbl_lookup(s.push(v), m) == if m == v.num {
            Some(v.inode)
        } else {
            tbl_lookup(s, m)
        },
    decreases s.len(),
{
    if s.len() == 0 {
        if m != v.num {
            assert(tbl_lookup(s.push(v).skip(1), m) is None) by {
                lemma_tbl_lookup_none(s.push(v).skip(1), m);
            }
        }
    } else {
        assert(s.push(v).skip(1) =~= s.skip(1).push(v));
        lemma_tbl_lookup_push(s.skip(1), v, m);
    }
}

/// Removing the first matching row of a duplicate-free table deletes exactly
/// that key's binding.
pub proof fn lemma_tbl_lookup_remove(s: Seq<InodePairV>, n: usize, i: int, m: usize)
    requires
        tbl_unique(s),
        0 <= i < s.len(),
        s[i].num == n,
    ensures
        tbl_lookup(s.remove(i), m) == if m == n {
            None::<InodeV>
        } else {
            tbl_lookup(s, m)
        },
    decreases i,
{
    let t = s.remove(i);
    if i == 0 {
        assert(t =~= s.skip(1));
        if m == n {
            assert(forall|j: int| 0 <= j < t.len() ==> t[j].num != n);
            lemma_tbl_lookup_none(t, n);
        }
    } else {
        assert(t.skip(1) =~= s.skip(1).remove(i - 1));
        assert(tbl_unique(s.skip(1)));
        lemma_tbl_lookup_remove(s.skip(1), n, i - 1, m);
    }
}

// The same lemmas for directory dictionaries.

pub proof fn lemma_dict_lookup_skip(s: Seq<DirEntryV>, name: Seq<u8>, i: int)
    requires
        0 <= i <= s.len(),
        forall|j: int| 0 <= j < i ==> s[j].name != name,
    ensures
        dict_lookup(s, name) == dict_lookup(s.skip(i), name),
    decreases i,
{
    if i > 0 {
        assert(s.skip(1).skip(i - 1) =~= s.skip(i));
        lemma_dict_lookup_skip(s.skip(1), name, i - 1);
    } else {
        assert(s.skip(0) =~= s);
    }
}

pub proof fn lemma_dict_lookup_at(s: Seq<DirEntryV>, name: Seq<u8>, i: int)
    requires
        0 <= i < s.len(),
        s[i].name == name,
        forall|j: int| 0 <= j < i ==> s[j].name != name,
    ensures
        dict_lookup(s, name) == Some(s[i].inode),
{
    lemma_dict_lookup_skip(s, name, i);
    assert(s.skip(i)[0] == s[i]);
}

pub proof fn lemma_dict_lookup_none(s: Seq<DirEntryV>, name: Seq<u8>)
    requires
        forall|j: int| 0 <= j < s.len() ==> s[j].name != name,
    ensures
        dict_lookup(s, name) is None,
    decreases s.len(),
{
    if s.len() > 0 {
        lemma_dict_lookup_none(s.skip(1), name);
    }
}

pub proof fn lemma_dict_none_no_index(s: Seq<DirEntryV>, name: Seq<u8>)
    requires
        dict_lookup(s, name) is None,
    ensures
        forall|j: int| 0 <= j < s.len() ==> s[j].name != name,
    decreases s.len(),
{
    if s.len() > 0 {
        lemma_dict_none_no_index(s.skip(1), name);
        assert forall|j: int| 0 <= j < s.len() implies s[j].name != name by {
            if j > 0 {
                assert(s.skip(1)[j - 1].name != name);
            }
        }
    }
}

pub proof fn lemma_dict_lookup_push(s: Seq<DirEntryV>, v: DirEntryV, m: Seq<u8>)
    requires
        dict_lookup(s, v.name) is None,
    ensures
        dict_lookup(s.push(v), m) == if m == v.name {
            Some(v.inode)
        } else {
            dict_lookup(s, m)
        },
    decreases s.len(),
{
    if s.len() == 0 {
        if m != v.name {
            lemma_dict_lookup_none(s.push(v).skip(1), m);
        }
    } else {
        assert(s.push(v).skip(1) =~= s.skip(1).push(v));
        lemma_dict_lookup_push(s.skip(1), v, m);
    }
}

pub proof fn lemma_dict_lookup_remove(s: Seq<DirEntryV>, name: Seq<u8>, i: int, m: Seq<u8>)
    requires
        dict_unique(s),
        0 <= i < s.len(),
        s[i].name == name,
    ensures
        dict_lookup(s.remove(i), m) == if m == name {
            None::<usize>
        } else {
            dict_lookup(s, m)
        },
    decreases i,
{
    let t = s.remove(i);
    if i == 0 {
        assert(t =~= s.skip(1));
        if m == name {
            assert(forall|j: int| 0 <= j < t.len() ==> t[j].name != name);
            lemma_dict_lookup_none(t, name);
        }
    } else {
        assert(t.skip(1) =~= s.skip(1).remove(i - 1));
        assert(dict_unique(s.skip(1)));
        lemma_dict_lookup_remove(s.skip(1), name, i - 1, m);
    }
}

// ---------------------------------------------------------------------------
// Well-formedness.
// ---------------------------------------------------------------------------

pub open spec fn inode_wf(ino: InodeV) -> bool {
    match ino {
        InodeV::Dir(d) => {
            &&& dict_unique(d.dict)
            &&& d.dict.len() <= DIRTABLE_CAP as nat
            &&& d.linkcount == 1 + d.dict.len()
            &&& forall|e: int| 0 <= e < d.dict.len() ==> (#[trigger] d.dict[e]).name.len() <= NAME_CAP as nat
        },
        _ => true,
    }
}

/// The filesystem invariant: inode numbers are unique and below
/// `nextinode`, and every directory's link count matches its dictionary.
pub open spec fn fs_wf(m: FilesystemMetadataV) -> bool {
    &&& tbl_unique(m.inodetable)
    &&& m.nextinode <= NEXTINODE_CAP
    &&& m.inodetable.len() <= NEXTINODE_CAP as nat
    &&& forall|k: int|
        0 <= k < m.inodetable.len() ==> (#[trigger] m.inodetable[k]).num < m.nextinode && inode_wf(
            m.inodetable[k].inode,
        )
}

pub proof fn lemma_tbl_lookup_index(s: Seq<InodePairV>, n: usize)
    requires
        tbl_lookup(s, n) is Some,
    ensures
        exists|i: int|
            0 <= i < s.len() && s[i].num == n && #[trigger] s[i].inode == tbl_lookup(s, n)->Some_0,
    decreases s.len(),
{
    if s.len() > 0 {
        if s[0].num == n {
            assert(s[0].inode == tbl_lookup(s, n)->Some_0);
        } else {
            lemma_tbl_lookup_index(s.skip(1), n);
            let i = choose|i: int|
                0 <= i < s.skip(1).len() && s.skip(1)[i].num == n && #[trigger] s.skip(
                    1,
                )[i].inode == tbl_lookup(s.skip(1), n)->Some_0;
            assert(s[i + 1].inode == tbl_lookup(s, n)->Some_0);
        }
    }
}

/// Every inode number in the table is strictly below `nextinode`.
pub proof fn lemma_inode_numbers_below_nextinode(m: FilesystemMetadataV, n: usize)
    requires
        fs_wf(m),
        tbl_has(m.inodetable, n),
    ensures
        n < m.nextinode,
{
    lemma_tbl_lookup_index(m.inodetable, n);
}

/// Every directory's link count is one more than the number of entries in
/// its dictionary; as `.` and `..` are always present, that is three plus
/// the number of its other children.
pub proof fn lemma_dir_linkcount(m: FilesystemMetadataV, n: usize, d: DirectoryInodeV)
    requires
        fs_wf(m),
        tbl_lookup(m.inodetable, n) == Some(InodeV::Dir(d)),
    ensures
        d.linkcount == 1 + d.dict.len(),
        dict_unique(d.dict),
{
    lemma_tbl_lookup_index(m.inodetable, n);
}

} // verus!

verus! {

// ---------------------------------------------------------------------------
// Executable helpers over the table and the dictionaries.
// ---------------------------------------------------------------------------

/// Byte-string equality, the exec mirror of `a@ == b@`.
pub fn bytes_eq(a: &Vec<u8>, b: &Vec<u8>) -> (r: bool)
    ensures
        r == (a@ == b@),
{
    if a.len() != b.len() {
        return false;
    }
    let mut i: usize = 0;
    while i < a.len()
        invariant
            a@.len() == b@.len(),
            i <= a@.len(),
            forall|j: int| 0 <= j < i ==> a@[j] == b@[j],
        decreases a@.len() - i,
    {
        if a[i] != b[i] {
            return false;
        }
        i = i + 1;
    }
    proof {
        assert(a@ =~= b@);
    }
    true
}

pub fn clone_bytes(v: &Vec<u8>) -> (r: Vec<u8>)
    ensures
        r@ == v@,
{
    let mut out: Vec<u8> = Vec::new();
    let mut i: usize = 0;
    while i < v.len()
        invariant
            i <= v@.len(),
            out@ == v@.take(i as int),
        decreases v@.len() - i,
    {
        out.push(v[i]);
        proof {
            assert(v@.take(i + 1 as int) =~= v@.take(i as int).push(v@[i as int]));
        }
        i = i + 1;
    }
    proof {
        assert(v@.take(v@.len() as int) =~= v@);
    }
    out
}

/// Index of the row holding inode number `n`, if the table has one.
pub fn tbl_find(t: &Vec<InodePair>, n: usize) -> (r: Option<usize>)
    ensures
        match r {
            Some(i) => i < t@.len() && tbl_v(t@)[i as int].num == n && tbl_lookup(tbl_v(t@), n)
                == Some(tbl_v(t@)[i as int].inode) && (forall|j: int|
                0 <= j < i ==> tbl_v(t@)[j].num != n),
            None => tbl_lookup(tbl_v(t@), n) is None,
        },
{
    let mut i: usize = 0;
    while i < t.len()
        invariant
            i <= t@.len(),
            forall|j: int| 0 <= j < i ==> tbl_v(t@)[j].num != n,
        decreases t@.len() - i,
    {
        if t[i].num == n {
            proof {
                lemma_tbl_lookup_at(tbl_v(t@), n, i as int);
            }
            return Some(i);
        }
        i = i + 1;
    }
    proof {
        lemma_tbl_lookup_none(tbl_v(t@), n);
    }
    None
}

/// Index of the entry holding `name` in a directory dictionary.
pub fn dict_find(d: &Vec<DirEntry>, name: &Vec<u8>) -> (r: Option<usize>)
    ensures
        match r {
            Some(i) => i < d@.len() && dict_v(d@)[i as int].name == name@ && dict_lookup(
                dict_v(d@),
                name@,
            ) == Some(dict_v(d@)[i as int].inode) && (forall|j: int|
                0 <= j < i ==> dict_v(d@)[j].name != name@),
            None => dict_lookup(dict_v(d@), name@) is None,
        },
{
    let mut i: usize = 0;
    while i < d.len()
        invariant
            i <= d@.len(),
            forall|j: int| 0 <= j < i ==> dict_v(d@)[j].name != name@,
        decreases d@.len() - i,
    {
        if bytes_eq(&d[i].name, name) {
            proof {
                lemma_dict_lookup_at(dict_v(d@), name@, i as int);
            }
            return Some(i);
        }
        i = i + 1;
    }
    proof {
        lemma_dict_lookup_none(dict_v(d@), name@);
    }
    None
}

pub fn clone_dict(d: &Vec<DirEntry>) -> (r: Vec<DirEntry>)
    ensures
        dict_v(r@) == dict_v(d@),
{
    let mut out: Vec<DirEntry> = Vec::new();
    let mut i: usize = 0;
    while i < d.len()
        invariant
            i <= d@.len(),
            out@.len() == i,
            forall|j: int| 0 <= j < i ==> #[trigger] out@[j]@ == d@[j]@,
        decreases d@.len() - i,
    {
        let name = clone_bytes(&d[i].name);
        let inode = d[i].inode;
        out.push(DirEntry { name, inode });
        i = i + 1;
    }
    proof {
        assert(dict_v(out@) =~= dict_v(d@));
    }
    out
}

pub fn clone_inode(ino: &Inode) -> (r: Inode)
    ensures
        r@ == ino@,
{
    match ino {
        Inode::File(g) => Inode::File(*g),
        Inode::CharDev(g) => Inode::CharDev(*g),
        Inode::Socket(g) => Inode::Socket(*g),
        Inode::Dir(d) => {
            let dict = clone_dict(&d.filename_to_inode_dict);
            Inode::Dir(
                DirectoryInode {
                    size: d.size,
                    uid: d.uid,
                    gid: d.gid,
                    mode: d.mode,
                    linkcount: d.linkcount,
                    refcount: d.refcount,
                    atime: d.atime,
                    ctime: d.ctime,
                    mtime: d.mtime,
                    filename_to_inode_dict: dict,
                },
            )
        },
    }
}

// ---------------------------------------------------------------------------
// The well-known names.
// ---------------------------------------------------------------------------

pub open spec fn dot() -> Seq<u8> {
    seq![46u8]
}

pub open spec fn dotdot() -> Seq<u8> {
    seq![46u8, 46u8]
}

pub fn name_dot() -> (r: Vec<u8>)
    ensures
        r@ == dot(),
{
    let mut v: Vec<u8> = Vec::new();
    v.push(46);
    proof {
        assert(v@ =~= dot());
    }
    v
}

pub fn name_dotdot() -> (r: Vec<u8>)
    ensures
        r@ == dotdot(),
{
    let mut v: Vec<u8> = Vec::new();
    v.push(46);
    v.push(46);
    proof {
        assert(v@ =~= dotdot());
    }
    v
}

} // verus!

verus! {

// ---------------------------------------------------------------------------
// Names of the reserved tree.
// ---------------------------------------------------------------------------

pub open spec fn name_dev_v() -> Seq<u8> {
    seq![100u8, 101u8, 118u8]
}

pub open spec fn name_tmp_v() -> Seq<u8> {
    seq![116u8, 109u8, 112u8]
}

pub open spec fn name_null_v() -> Seq<u8> {
    seq![110u8, 117u8, 108u8, 108u8]
}

pub open spec fn name_zero_v() -> Seq<u8> {
    seq![122u8, 101u8, 114u8, 111u8]
}

pub open spec fn name_urandom_v() -> Seq<u8> {
    seq![117u8, 114u8, 97u8, 110u8, 100u8, 111u8, 109u8]
}

pub open spec fn name_random_v() -> Seq<u8> {
    seq![114u8, 97u8, 110u8, 100u8, 111u8, 109u8]
}

pub fn name_dev() -> (r: Vec<u8>)
    ensures
        r@ == name_dev_v(),
{
    let mut v: Vec<u8> = Vec::new();
    v.push(100);
    v.push(101);
    v.push(118);
    proof {
        assert(v@ =~= name_dev_v());
    }
    v
}

pub fn name_tmp() -> (r: Vec<u8>)
    ensures
        r@ == name_tmp_v(),
{
    let mut v: Vec<u8> = Vec::new();
    v.push(116);
    v.push(109);
    v.push(112);
    proof {
        assert(v@ =~= name_tmp_v());
    }
    v
}

pub fn name_null() -> (r: Vec<u8>)
    ensures
        r@ == name_null_v(),
{
    let mut v: Vec<u8> = Vec::new();
    v.push(110);
    v.push(117);
    v.push(108);
    v.push(108);
    proof {
        assert(v@ =~= name_null_v());
    }
    v
}

pub fn name_zero() -> (r: Vec<u8>)
    ensures
        r@ == name_zero_v(),
{
    let mut v: Vec<u8> = Vec::new();
    v.push(122);
    v.push(101);
    v.push(114);
    v.push(111);
    proof {
        assert(v@ =~= name_zero_v());
    }
    v
}

pub fn name_urandom() -> (r: Vec<u8>)
    ensures
        r@ == name_urandom_v(),
{
    let mut v: Vec<u8> = Vec::new();
    v.push(117);
    v.push(114);
    v.push(97);
    v.push(110);
    v.push(100);
    v.push(111);
    v.push(109);
    proof {
        assert(v@ =~= name_urandom_v());
    }
    v
}

pub fn name_random() -> (r: Vec<u8>)
    ensures
        r@ == name_random_v(),
{
    let mut v: Vec<u8> = Vec::new();
    v.push(114);
    v.push(97);
    v.push(110);
    v.push(100);
    v.push(111);
    v.push(109);
    proof {
        assert(v@ =~= name_random_v());
    }
    v
}

// ---------------------------------------------------------------------------
// Formatting a fresh filesystem.
// ---------------------------------------------------------------------------

/// A new directory dictionary holding only `.` and `..`.
pub fn init_filename_to_inode_dict(curinode: usize, parentinode: usize) -> (r: Vec<DirEntry>)
    ensures
        dict_v(r@) == seq![
            DirEntryV { name: dot(), inode: curinode },
            DirEntryV { name: dotdot(), inode: parentinode },
        ],
{
    let mut d: Vec<DirEntry> = Vec::new();
    d.push(DirEntry { name: name_dot(), inode: curinode });
    d.push(DirEntry { name: name_dotdot(), inode: parentinode });
    proof {
        assert(dict_v(d@) =~= seq![
            DirEntryV { name: dot(), inode: curinode },
            DirEntryV { name: dotdot(), inode: parentinode },
        ]);
    }
    d
}

/// The metadata of a bare filesystem: only the root directory.
pub open spec fn blank_fs_view(time: u64) -> FilesystemMetadataV {
    FilesystemMetadataV {
        nextinode: 2,
        dev_id: 20,
        inodetable: seq![
            InodePairV {
                num: ROOTDIRECTORYINODE,
                inode: InodeV::Dir(
                    DirectoryInodeV {
                        size: 0,
                        uid: DEFAULT_UID,
                        gid: DEFAULT_GID,
                        mode: S_IFDIR | S_IRWXA,
                        linkcount: 3,
                        refcount: 0,
                        atime: time,
                        ctime: time,
                        mtime: time,
                        dict: seq![
                            DirEntryV { name: dot(), inode: ROOTDIRECTORYINODE },
                            DirEntryV { name: dotdot(), inode: ROOTDIRECTORYINODE },
                        ],
                    },
                ),
            },
        ],
    }
}

impl FilesystemMetadata {
    /// A fresh metadata tree holding only the root directory, whose `.` and
    /// `..` both point at itself; the root's extra link pins it in place.
    pub fn blank_fs_init(time: u64) -> (r: FilesystemMetadata)
        ensures
            r@ == blank_fs_view(time),
            fs_wf(r@),
    {
        let dict = init_filename_to_inode_dict(ROOTDIRECTORYINODE, ROOTDIRECTORYINODE);
        let rootdir = DirectoryInode {
            size: 0,
            uid: DEFAULT_UID,
            gid: DEFAULT_GID,
            mode: S_IFDIR | S_IRWXA,
            linkcount: 3,
            refcount: 0,
            atime: time,
            ctime: time,
            mtime: time,
            filename_to_inode_dict: dict,
        };
        let mut table: Vec<InodePair> = Vec::new();
        table.push(InodePair { num: ROOTDIRECTORYINODE, inode: Inode::Dir(rootdir) });
        let r = FilesystemMetadata { nextinode: 2, dev_id: 20, inodetable: table };
        proof {
            assert(dot() !== dotdot()) by {
                assert(dot().len() == 1);
                assert(dotdot().len() == 2);
            }
            assert(r@.inodetable.len() == 1);
            assert(r@.inodetable[0] == table@[0]@);
            let d0 = r@.inodetable[0].inode->Dir_0;
            assert(d0.dict.len() == 2);
            assert(d0.dict[0].name == dot());
            assert(d0.dict[1].name == dotdot());
            assert(dict_unique(d0.dict));
            assert(inode_wf(r@.inodetable[0].inode));
            assert(r@.inodetable =~~= blank_fs_view(time).inodetable);
            assert(r@ =~~= blank_fs_view(time));
        }
        r
    }
}

/// The freshly formatted tree: `/`, `/dev` with its four character devices,
/// and `/tmp`, with inode numbers 1 through 7 and `nextinode` at 8.
pub open spec fn format_fs_view(time: u64) -> FilesystemMetadataV {
    FilesystemMetadataV {
        nextinode: 8,
        dev_id: 20,
        inodetable: seq![
            InodePairV {
                num: 1,
                inode: InodeV::Dir(
                    DirectoryInodeV {
                        size: 0,
                        uid: DEFAULT_UID,
                        gid: DEFAULT_GID,
                        mode: S_IFDIR | S_IRWXA,
                        linkcount: 5,
                        refcount: 0,
                        atime: time,
                        ctime: time,
                        mtime: time,
                        dict: seq![
                            DirEntryV { name: dot(), inode: 1 },
                            DirEntryV { name: dotdot(), inode: 1 },
                            DirEntryV { name: name_dev_v(), inode: 2 },
                            DirEntryV { name: name_tmp_v(), inode: 7 },
                        ],
                    },
                ),
            },
            InodePairV {
                num: 2,
                inode: InodeV::Dir(
                    DirectoryInodeV {
                        size: 0,
                        uid: DEFAULT_UID,
                        gid: DEFAULT_GID,
                        mode: S_IFDIR | 0o755,
                        linkcount: 7,
                        refcount: 0,
                        atime: time,
                        ctime: time,
                        mtime: time,
                        dict: seq![
                            DirEntryV { name: dotdot(), inode: 1 },
                            DirEntryV { name: dot(), inode: 2 },
                            DirEntryV { name: name_null_v(), inode: 3 },
                            DirEntryV { name: name_zero_v(), inode: 4 },
                            DirEntryV { name: name_urandom_v(), inode: 5 },
                            DirEntryV { name: name_random_v(), inode: 6 },
                        ],
                    },
                ),
            },
            InodePairV { num: 3, inode: InodeV::CharDev(chardev_view(time, 1, 3)) },
            InodePairV { num: 4, inode: InodeV::CharDev(chardev_view(time, 1, 5)) },
            InodePairV { num: 5, inode: InodeV::CharDev(chardev_view(time, 1, 9)) },
            InodePairV { num: 6, inode: InodeV::CharDev(chardev_view(time, 1, 8)) },
            InodePairV {
                num: 7,
                inode: InodeV::Dir(
                    DirectoryInodeV {
                        size: 0,
                        uid: DEFAULT_UID,
                        gid: DEFAULT_GID,
                        mode: S_IFDIR | 0o755,
                        linkcount: 3,
                        refcount: 0,
                        atime: time,
                        ctime: time,
                        mtime: time,
                        dict: seq![
                            DirEntryV { name: dotdot(), inode: 1 },
                            DirEntryV { name: dot(), inode: 7 },
                        ],
                    },
                ),
            },
        ],
    }
}

pub open spec fn chardev_view(time: u64, major: u32, minor: u32) -> DeviceInode {
    DeviceInode {
        size: 0,
        uid: DEFAULT_UID,
        gid: DEFAULT_UID,
        mode: S_IFCHR | 0o666,
        linkcount: 1,
        refcount: 0,
        atime: time,
        ctime: time,
        mtime: time,
        dev: DevNo { major, minor },
    }
}

fn make_chardev(time: u64, major: u32, minor: u32) -> (r: Inode)
    ensures
        r@ == InodeV::CharDev(chardev_view(time, major, minor)),
{
    Inode::CharDev(
        DeviceInode {
            size: 0,
            uid: DEFAULT_UID,
            gid: DEFAULT_UID,
            mode: S_IFCHR | 0o666,
            linkcount: 1,
            refcount: 0,
            atime: time,
            ctime: time,
            mtime: time,
            dev: DevNo { major, minor },
        },
    )
}

/// Build the freshly formatted metadata tree.  The caller persists it (and
/// discards any leftover journal) to finish a format.
pub fn format_fs(time: u64) -> (r: FilesystemMetadata)
    ensures
        r@ == format_fs_view(time),
        fs_wf(r@),
{
    // the root directory, its dictionary seeded with `.` and `..`
    let mut rootdict = init_filename_to_inode_dict(1, 1);
    let ghost init0 = rootdict@;
    rootdict.push(DirEntry { name: name_dev(), inode: 2 });
    rootdict.push(DirEntry { name: name_tmp(), inode: 7 });
    proof {
        assert(dict_v(init0).len() == 2);
        assert(init0.len() == 2);
        assert(init0[0]@ == dict_v(init0)[0] && init0[1]@ == dict_v(init0)[1]);
        assert(rootdict@[0] == init0[0] && rootdict@[1] == init0[1]);
        assert(dict_v(rootdict@) =~= seq![
            DirEntryV { name: dot(), inode: 1 },
            DirEntryV { name: dotdot(), inode: 1 },
            DirEntryV { name: name_dev_v(), inode: 2 },
            DirEntryV { name: name_tmp_v(), inode: 7 },
        ]);
    }
    let rootdir = DirectoryInode {
        size: 0,
        uid: DEFAULT_UID,
        gid: DEFAULT_GID,
        mode: S_IFDIR | S_IRWXA,
        linkcount: 5,
        refcount: 0,
        atime: time,
        ctime: time,
        mtime: time,
        filename_to_inode_dict: rootdict,
    };

    let mut devchildren: Vec<DirEntry> = Vec::new();
    devchildren.push(DirEntry { name: name_dotdot(), inode: 1 });
    devchildren.push(DirEntry { name: name_dot(), inode: 2 });
    devchildren.push(DirEntry { name: name_null(), inode: 3 });
    devchildren.push(DirEntry { name: name_zero(), inode: 4 });
    devchildren.push(DirEntry { name: name_urandom(), inode: 5 });
    devchildren.push(DirEntry { name: name_random(), inode: 6 });
    proof {
        assert(dict_v(devchildren@) =~= seq![
            DirEntryV { name: dotdot(), inode: 1 },
            DirEntryV { name: dot(), inode: 2 },
            DirEntryV { name: name_null_v(), inode: 3 },
            DirEntryV { name: name_zero_v(), inode: 4 },
            DirEntryV { name: name_urandom_v(), inode: 5 },
            DirEntryV { name: name_random_v(), inode: 6 },
        ]);
    }
    let devdir = DirectoryInode {
        size: 0,
        uid: DEFAULT_UID,
        gid: DEFAULT_GID,
        mode: S_IFDIR | 0o755,
        linkcount: 7,
        refcount: 0,
        atime: time,
        ctime: time,
        mtime: time,
        filename_to_inode_dict: devchildren,
    };

    let mut tmpchildren: Vec<DirEntry> = Vec::new();
    tmpchildren.push(DirEntry { name: name_dotdot(), inode: 1 });
    tmpchildren.push(DirEntry { name: name_dot(), inode: 7 });
    proof {
        assert(dict_v(tmpchildren@) =~= seq![
            DirEntryV { name: dotdot(), inode: 1 },
            DirEntryV { name: dot(), inode: 7 },
        ]);
    }
    let tmpdir = DirectoryInode {
        size: 0,
        uid: DEFAULT_UID,
        gid: DEFAULT_GID,
        mode: S_IFDIR | 0o755,
        linkcount: 3,
        refcount: 0,
        atime: time,
        ctime: time,
        mtime: time,
        filename_to_inode_dict: tmpchildren,
    };

    let mut table: Vec<InodePair> = Vec::new();
    table.push(InodePair { num: 1, inode: Inode::Dir(rootdir) });
    table.push(InodePair { num: 2, inode: Inode::Dir(devdir) });
    table.push(InodePair { num: 3, inode: make_chardev(time, 1, 3) });
    table.push(InodePair { num: 4, inode: make_chardev(time, 1, 5) });
    table.push(InodePair { num: 5, inode: make_chardev(time, 1, 9) });
    table.push(InodePair { num: 6, inode: make_chardev(time, 1, 8) });
    table.push(InodePair { num: 7, inode: Inode::Dir(tmpdir) });

    let r = FilesystemMetadata { nextinode: 8, dev_id: 20, inodetable: table };
    proof {
        let v = format_fs_view(time);
        // the well-known names are pairwise distinct
        assert(dot().len() == 1 && dotdot().len() == 2 && name_dev_v().len() == 3
            && name_tmp_v().len() == 3 && name_null_v().len() == 4 && name_zero_v().len() == 4
            && name_urandom_v().len() == 7 && name_random_v().len() == 6);
        assert(name_dev_v() != name_tmp_v()) by {
            assert(name_dev_v()[0] == 100u8 && name_tmp_v()[0] == 116u8);
        }
        assert(name_null_v() != name_zero_v()) by {
            assert(name_null_v()[0] == 110u8 && name_zero_v()[0] == 122u8);
        }
        assert(r@.inodetable.len() == 7);
        assert(r@.inodetable =~~= v.inodetable);
        assert(r@ =~~= v);
        assert(fs_wf(r@)) by {
            assert(inode_wf(v.inodetable[0].inode)) by {
                assert(dict_unique(v.inodetable[0].inode->Dir_0.dict));
            }
            assert(inode_wf(v.inodetable[1].inode)) by {
                assert(dict_unique(v.inodetable[1].inode->Dir_0.dict));
            }
            assert(inode_wf(v.inodetable[6].inode)) by {
                assert(dict_unique(v.inodetable[6].inode->Dir_0.dict));
            }
            assert forall|k: int| 0 <= k < r@.inodetable.len() implies (
            #[trigger] r@.inodetable[k]).num < r@.nextinode && inode_wf(
                r@.inodetable[k].inode,
            ) by {
                assert(r@.inodetable[k] == v.inodetable[k]);
            }
        }
    }
    r
}

// ---------------------------------------------------------------------------
// fsck: drop inodes whose invariants no longer hold.
// ---------------------------------------------------------------------------

/// Whether `fsck` retains an inode: files and character devices need a link,
/// directories need more than their `.` and `..` links, and orphaned
/// sockets are always dropped.
pub open spec fn fsck_keep(ino: InodeV) -> bool {
    match ino {
        InodeV::File(f) => f.linkcount != 0,
        InodeV::CharDev(c) => c.linkcount != 0,
        InodeV::Dir(d) => d.linkcount > 2,
        InodeV::Socket(_) => false,
    }
}

pub open spec fn fsck_filter(o: Option<InodeV>) -> Option<InodeV> {
    match o {
        Some(i) => if fsck_keep(i) {
            Some(i)
        } else {
            None
        },
        None => None,
    }
}

/// Retain exactly the inodes whose invariants hold; every surviving binding
/// is unchanged.
pub fn fsck(m: &mut FilesystemMetadata)
    requires
        fs_wf(old(m)@),
    ensures
        fs_wf(final(m)@),
        final(m)@.nextinode == old(m)@.nextinode,
        final(m)@.dev_id == old(m)@.dev_id,
        forall|n: usize| #[trigger]
            tbl_lookup(final(m)@.inodetable, n) == fsck_filter(tbl_lookup(old(m)@.inodetable, n)),
{
    let ghost oldt = tbl_v(m.inodetable@);
    let mut newtbl: Vec<InodePair> = Vec::new();
    let mut i: usize = 0;
    while i < m.inodetable.len()
        invariant
            fs_wf(old(m)@),
            *m == *old(m),
            oldt == tbl_v(m.inodetable@),
            i <= m.inodetable@.len(),
            newtbl@.len() <= i,
            tbl_unique(tbl_v(newtbl@)),
            forall|k: int|
                0 <= k < newtbl@.len() ==> (#[trigger] tbl_v(newtbl@)[k]).num < m@.nextinode
                    && inode_wf(tbl_v(newtbl@)[k].inode),
            forall|n: usize| #[trigger]
                tbl_lookup(tbl_v(newtbl@), n) == fsck_filter(tbl_lookup(oldt.take(i as int), n)),
        decreases m.inodetable@.len() - i,
    {
        let p = &m.inodetable[i];
        let keep = match &p.inode {
            Inode::File(f) => f.linkcount != 0,
            Inode::CharDev(c) => c.linkcount != 0,
            Inode::Dir(d) => d.linkcount > 2,
            Inode::Socket(_) => false,
        };
        proof {
            assert(oldt.take(i + 1 as int) =~= oldt.take(i as int).push(oldt[i as int]));
            // the row at `i` is fresh among the first `i` rows
            assert(forall|j: int| 0 <= j < i ==> oldt.take(i as int)[j].num != oldt[i as int].num);
            lemma_tbl_lookup_none(oldt.take(i as int), oldt[i as int].num);
            lemma_tbl_lookup_push(oldt.take(i as int), oldt[i as int], oldt[i as int].num);
        }
        if keep {
            let num = p.num;
            let ino = clone_inode(&p.inode);
            proof {
                let t0 = tbl_v(newtbl@);
                assert(tbl_lookup(t0, num) == fsck_filter(tbl_lookup(oldt.take(i as int), num)));
                lemma_tbl_none_no_index(t0, num);
            }
            let ghost t0 = tbl_v(newtbl@);
            newtbl.push(InodePair { num, inode: ino });
            proof {
                let t1 = tbl_v(newtbl@);
                assert(t1 =~= t0.push(InodePairV { num, inode: oldt[i as int].inode }));
                assert forall|n: usize| #[trigger]
                    tbl_lookup(t1, n) == fsck_filter(
                    tbl_lookup(oldt.take(i + 1 as int), n),
                ) by {
                    lemma_tbl_lookup_push(
                        t0,
                        InodePairV { num, inode: oldt[i as int].inode },
                        n,
                    );
                    lemma_tbl_lookup_push(oldt.take(i as int), oldt[i as int], n);
                }
            }
        } else {
            proof {
                let t0 = tbl_v(newtbl@);
                assert forall|n: usize| #[trigger]
                    tbl_lookup(t0, n) == fsck_filter(
                    tbl_lookup(oldt.take(i + 1 as int), n),
                ) by {
                    lemma_tbl_lookup_push(oldt.take(i as int), oldt[i as int], n);
                }
            }
        }
        i = i + 1;
    }
    proof {
        assert(oldt.take(m.inodetable@.len() as int) =~= oldt);
    }
    m.inodetable = newtbl;
}

} // verus!

verus! {

/// A reference count after one more holder appears; pinned at the machine
/// cap rather than wrapping.
pub open spec fn bump_refcount(i: InodeV) -> InodeV {
    match i {
        InodeV::File(g) => InodeV::File(
            GenericInode {
                refcount: if g.refcount < u32::MAX {
                    (g.refcount + 1) as u32
                } else {
                    g.refcount
                },
                ..g
            },
        ),
        InodeV::CharDev(c) => InodeV::CharDev(
            DeviceInode {
                refcount: if c.refcount < u32::MAX {
                    (c.refcount + 1) as u32
                } else {
                    c.refcount
                },
                ..c
            },
        ),
        InodeV::Socket(s) => InodeV::Socket(
            SocketInode {
                refcount: if s.refcount < u32::MAX {
                    (s.refcount + 1) as u32
                } else {
                    s.refcount
                },
                ..s
            },
        ),
        InodeV::Dir(d) => InodeV::Dir(
            DirectoryInodeV {
                refcount: if d.refcount < u32::MAX {
                    (d.refcount + 1) as u32
                } else {
                    d.refcount
                },
                ..d
            },
        ),
    }
}

/// Record one more open reference to the root directory.
pub fn incref_root(fs: &mut FilesystemMetadata)
    requires
        tbl_lookup(old(fs)@.inodetable, ROOTDIRECTORYINODE) matches Some(InodeV::Dir(_)),
    ensures
        final(fs)@.nextinode == old(fs)@.nextinode,
        final(fs)@.dev_id == old(fs)@.dev_id,
        forall|n: usize| #[trigger]
            tbl_lookup(final(fs)@.inodetable, n) == if n == ROOTDIRECTORYINODE {
                Some(bump_refcount(tbl_lookup(old(fs)@.inodetable, ROOTDIRECTORYINODE)->Some_0))
            } else {
                tbl_lookup(old(fs)@.inodetable, n)
            },
        fs_wf(old(fs)@) ==> fs_wf(final(fs)@),
{
    let ghost t0 = tbl_v(fs.inodetable@);
    let idx = match tbl_find(&fs.inodetable, ROOTDIRECTORYINODE) {
        Some(i) => i,
        None => {
            proof {
                assert(false);
            }
            vstd::pervasive::unreached()
        },
    };
    let ghost oldrow = t0[idx as int];
    let mut pair = fs.inodetable.remove(idx);
    proof {
        assert(pair@ == oldrow);
    }
    match &mut pair.inode {
        Inode::Dir(d) => {
            if d.refcount < u32::MAX {
                d.refcount = d.refcount + 1;
            }
        },
        _ => {},
    }
    proof {
        assert(pair@ == InodePairV { num: oldrow.num, inode: bump_refcount(oldrow.inode) });
    }
    fs.inodetable.insert(idx, pair);
    proof {
        let p = InodePairV { num: oldrow.num, inode: bump_refcount(oldrow.inode) };
        assert(tbl_v(fs.inodetable@) =~= t0.update(idx as int, p));
        assert forall|n: usize| #[trigger]
            tbl_lookup(tbl_v(fs.inodetable@), n) == (if n == ROOTDIRECTORYINODE {
                Some(bump_refcount(tbl_lookup(t0, ROOTDIRECTORYINODE)->Some_0))
            } else {
                tbl_lookup(t0, n)
            }) by {
            lemma_tbl_lookup_update(t0, ROOTDIRECTORYINODE, idx as int, p, n);
        }
        if fs_wf(old(fs)@) {
            assert forall|k: int|
                0 <= k < tbl_v(fs.inodetable@).len() implies (#[trigger] tbl_v(
                fs.inodetable@,
            )[k]).num < fs.nextinode && inode_wf(tbl_v(fs.inodetable@)[k].inode) by {
                if k != idx {
                    assert(tbl_v(fs.inodetable@)[k] == t0[k]);
                }
            }
            assert(tbl_unique(tbl_v(fs.inodetable@))) by {
                assert(forall|j: int|
                    0 <= j < tbl_v(fs.inodetable@).len() ==> tbl_v(fs.inodetable@)[j].num
                        == t0[j].num);
            }
        }
    }
}

} // verus!

verus! {

/// Record one more open reference to an inode; a number with no binding is
/// left alone.
pub fn incref_inode(fs: &mut FilesystemMetadata, n: usize)
    ensures
        final(fs)@.nextinode == old(fs)@.nextinode,
        final(fs)@.dev_id == old(fs)@.dev_id,
        forall|m: usize| #[trigger]
            tbl_lookup(final(fs)@.inodetable, m) == if m == n && tbl_lookup(
                old(fs)@.inodetable,
                n,
            ) is Some {
                Some(bump_refcount(tbl_lookup(old(fs)@.inodetable, n)->Some_0))
            } else {
                tbl_lookup(old(fs)@.inodetable, m)
            },
        fs_wf(old(fs)@) ==> fs_wf(final(fs)@),
{
    let ghost t0 = tbl_v(fs.inodetable@);
    let idx = match tbl_find(&fs.inodetable, n) {
        Some(i) => i,
        None => {
            return ;
        },
    };
    let ghost oldrow = t0[idx as int];
    let mut pair = fs.inodetable.remove(idx);
    proof {
        assert(pair@ == oldrow);
    }
    match &mut pair.inode {
        Inode::Dir(d) => {
            if d.refcount < u32::MAX {
                d.refcount = d.refcount + 1;
            }
        },
        Inode::File(g) => {
            if g.refcount < u32::MAX {
                g.refcount = g.refcount + 1;
            }
        },
        Inode::CharDev(c) => {
            if c.refcount < u32::MAX {
                c.refcount = c.refcount + 1;
            }
        },
        Inode::Socket(s) => {
            if s.refcount < u32::MAX {
                s.refcount = s.refcount + 1;
            }
        },
    }
    proof {
        assert(pair@ == InodePairV { num: oldrow.num, inode: bump_refcount(oldrow.inode) });
    }
    fs.inodetable.insert(idx, pair);
    proof {
        let p = InodePairV { num: oldrow.num, inode: bump_refcount(oldrow.inode) };
        assert(tbl_v(fs.inodetable@) =~= t0.update(idx as int, p));
        assert forall|m: usize| #[trigger]
            tbl_lookup(tbl_v(fs.inodetable@), m) == (if m == n && tbl_lookup(t0, n) is Some {
                Some(bump_refcount(tbl_lookup(t0, n)->Some_0))
            } else {
                tbl_lookup(t0, m)
            }) by {
            lemma_tbl_lookup_update(t0, n, idx as int, p, m);
        }
        if fs_wf(old(fs)@) {
            assert forall|k: int|
                0 <= k < tbl_v(fs.inodetable@).len() implies (#[trigger] tbl_v(
                fs.inodetable@,
            )[k]).num < fs.nextinode && inode_wf(tbl_v(fs.inodetable@)[k].inode) by {
                if k != idx {
                    assert(tbl_v(fs.inodetable@)[k] == t0[k]);
                }
            }
            assert(tbl_unique(tbl_v(fs.inodetable@))) by {
                assert(forall|j: int|
                    0 <= j < tbl_v(fs.inodetable@).len() ==> tbl_v(fs.inodetable@)[j].num
                        == t0[j].num);
            }
        }
    }
}

} // verus!
