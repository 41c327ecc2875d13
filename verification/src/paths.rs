//! Path handling: parsing byte paths into components, normalizing them
//! against a working directory, and resolving them through the inode table.

use crate::fs::{
    tbl_v, fs_wf, tbl_unique, inode_wf,
    bytes_eq, clone_bytes, dict_find, dict_lookup, dot, dotdot, name_dot, name_dotdot, tbl_find,
    tbl_lookup, DirEntry, DirEntryV, FilesystemMetadata, Inode, InodeV, InodePairV,
    ROOTDIRECTORYINODE,
};
use vstd::prelude::*;

verus! {

/// A parsed path: whether it was absolute, and its components in order.
/// Components may still contain `.` and `..` until `normpath` has run.
#[derive(Debug)]
pub struct Path {
    pub absolute: bool,
    pub comps: Vec<Vec<u8>>,
}

pub ghost struct PathV {
    pub absolute: bool,
    pub comps: Seq<Seq<u8>>,
}

pub open spec fn comps_v(s: Seq<Vec<u8>>) -> Seq<Seq<u8>> {
    s.map_values(|v: Vec<u8>| v@)
}

impl View for Path {
    type V = PathV;

    open spec fn view(&self) -> PathV {
        PathV { absolute: self.absolute, comps: comps_v(self.comps@) }
    }
}

// ---------------------------------------------------------------------------
// Parsing.
// ---------------------------------------------------------------------------

pub const SEP: u8 = 47;

/// The end of the path segment starting at `i`: the first separator at or
/// after `i`, or the end of the bytes.
pub open spec fn seg_end(s: Seq<u8>, i: int) -> int
    recommends
        0 <= i <= s.len(),
    decreases s.len() - i,
{
    if i < 0 || i >= s.len() {
        s.len() as int
    } else if s[i] == SEP {
        i
    } else {
        seg_end(s, i + 1)
    }
}

pub proof fn lemma_seg_end_bounds(s: Seq<u8>, i: int)
    requires
        0 <= i <= s.len(),
    ensures
        i <= seg_end(s, i) <= s.len(),
    decreases s.len() - i,
{
    if i < s.len() && s[i] != SEP {
        lemma_seg_end_bounds(s, i + 1);
    }
}

/// The components of the byte path from position `i` on: maximal non-empty
/// runs of bytes between separators.
pub open spec fn split_from(s: Seq<u8>, i: int) -> Seq<Seq<u8>>
    recommends
        0 <= i <= s.len(),
    decreases s.len() - i, (if 0 <= i <= s.len() { s.len() - seg_end(s, i) } else { 0 }) via split_from_decreases
{
    if i < 0 || i >= s.len() {
        seq![]
    } else if s[i] == SEP {
        split_from(s, i + 1)
    } else {
        seq![s.subrange(i, seg_end(s, i))] + split_from(s, seg_end(s, i))
    }
}

#[via_fn]
proof fn split_from_decreases(s: Seq<u8>, i: int) {
    if 0 <= i < s.len() && s[i] != SEP {
        lemma_seg_end_bounds(s, i + 1);
        assert(seg_end(s, i) == seg_end(s, i + 1));
        assert(seg_end(s, i) > i);
    }
}

pub open spec fn split_path(s: Seq<u8>) -> Seq<Seq<u8>> {
    split_from(s, 0)
}

/// Parse raw path bytes into a `Path`: a leading separator makes it
/// absolute, and the components are the non-empty segments in order.
pub fn convpath(cpath: &Vec<u8>) -> (r: Path)
    ensures
        r@.absolute == (cpath@.len() > 0 && cpath@[0] == SEP),
        r@.comps == split_path(cpath@),
{
    let absolute = cpath.len() > 0 && cpath[0] == SEP;
    let mut comps: Vec<Vec<u8>> = Vec::new();
    let mut i: usize = 0;
    while i < cpath.len()
        invariant
            0 <= i <= cpath@.len(),
            comps_v(comps@) + split_from(cpath@, i as int) == split_path(cpath@),
        decreases cpath@.len() - i,
    {
        if cpath[i] == SEP {
            i = i + 1;
        } else {
            let ghost prev_i = i as int;
            let start = i;
            let mut seg: Vec<u8> = Vec::new();
            while i < cpath.len() && cpath[i] != SEP
                invariant
                    0 <= start <= i <= cpath@.len(),
                    seg@ == cpath@.subrange(start as int, i as int),
                    seg_end(cpath@, start as int) == seg_end(cpath@, i as int),
                    forall|k: int| start <= k < i ==> cpath@[k] != SEP,
                decreases cpath@.len() - i,
            {
                seg.push(cpath[i]);
                proof {
                    assert(cpath@.subrange(start as int, i + 1 as int) =~= cpath@.subrange(
                        start as int,
                        i as int,
                    ).push(cpath@[i as int]));
                }
                i = i + 1;
            }
            proof {
                assert(seg_end(cpath@, i as int) == i);
                assert(seg_end(cpath@, start as int) == i);
                assert(split_from(cpath@, start as int) == seq![
                    cpath@.subrange(start as int, i as int),
                ] + split_from(cpath@, i as int));
            }
            let ghost c0 = comps_v(comps@);
            comps.push(seg);
            proof {
                assert(comps_v(comps@) =~= c0.push(cpath@.subrange(prev_i, i as int)));
                assert(comps_v(comps@) + split_from(cpath@, i as int) =~= c0 + split_from(
                    cpath@,
                    prev_i,
                ));
            }
        }
    }
    proof {
        assert(comps_v(comps@) + split_from(cpath@, cpath@.len() as int) =~= comps_v(comps@));
    }
    Path { absolute, comps }
}

// ---------------------------------------------------------------------------
// Normalization.
// ---------------------------------------------------------------------------

/// One step of normalization: `..` pops, `.` is dropped, anything else is
/// appended.
pub open spec fn norm_step(acc: Seq<Seq<u8>>, c: Seq<u8>) -> Seq<Seq<u8>> {
    if c == dotdot() {
        if acc.len() > 0 {
            acc.drop_last()
        } else {
            acc
        }
    } else if c == dot() {
        acc
    } else {
        acc.push(c)
    }
}

pub open spec fn normalize(acc: Seq<Seq<u8>>, comps: Seq<Seq<u8>>) -> Seq<Seq<u8>>
    decreases comps.len(),
{
    if comps.len() == 0 {
        acc
    } else {
        normalize(norm_step(acc, comps[0]), comps.skip(1))
    }
}

/// Normalize a parsed path against the working directory `cwd` (itself
/// already normalized and absolute): a relative path starts from `cwd`, an
/// absolute one from the root, and `.` / `..` components are folded away.
pub fn normpath(origp: &Path, cwd: &Path) -> (r: Path)
    ensures
        r@.absolute,
        r@.comps == normalize(
            if origp@.absolute {
                Seq::<Seq<u8>>::empty()
            } else {
                cwd@.comps
            },
            origp@.comps,
        ),
{
    let mut acc: Vec<Vec<u8>> = Vec::new();
    if !origp.absolute {
        let mut j: usize = 0;
        while j < cwd.comps.len()
            invariant
                j <= cwd.comps@.len(),
                acc@.len() == j,
                forall|k: int| 0 <= k < j ==> #[trigger] acc@[k]@ == cwd.comps@[k]@,
            decreases cwd.comps@.len() - j,
        {
            acc.push(clone_bytes(&cwd.comps[j]));
            j = j + 1;
        }
        proof {
            assert(comps_v(acc@).len() == acc@.len());
            assert(comps_v(cwd.comps@).len() == cwd.comps@.len());
            assert(comps_v(acc@) =~= comps_v(cwd.comps@));
        }
    }
    let ghost base = comps_v(acc@);
    let dd = name_dotdot();
    let d = name_dot();
    let mut i: usize = 0;
    proof {
        if origp.absolute {
            assert(base.len() == acc@.len());
            assert(base =~= Seq::<Seq<u8>>::empty());
        }
        assert(origp@.comps.skip(0) =~= origp@.comps);
    }
    while i < origp.comps.len()
        invariant
            i <= origp.comps@.len(),
            dd@ == dotdot(),
            d@ == dot(),
            normalize(base, origp@.comps) == normalize(
                comps_v(acc@),
                origp@.comps.skip(i as int),
            ),
        decreases origp.comps@.len() - i,
    {
        let c = &origp.comps[i];
        proof {
            assert(origp@.comps.skip(i as int)[0] == c@);
            assert(origp@.comps.skip(i as int).skip(1) =~= origp@.comps.skip(i + 1 as int));
        }
        let ghost acc0 = comps_v(acc@);
        if bytes_eq(c, &dd) {
            if acc.len() > 0 {
                acc.pop();
                proof {
                    assert(comps_v(acc@).len() == acc@.len());
                    assert(comps_v(acc@) =~= acc0.drop_last());
                }
            }
        } else if bytes_eq(c, &d) {
            // a `.` component is dropped
        } else {
            acc.push(clone_bytes(c));
            proof {
                assert(comps_v(acc@).len() == acc@.len());
                assert(comps_v(acc@) =~= acc0.push(c@));
            }
        }
        proof {
            assert(comps_v(acc@) == norm_step(acc0, origp@.comps.skip(i as int)[0]));
        }
        i = i + 1;
    }
    proof {
        assert(origp@.comps.skip(origp.comps@.len() as int) =~= Seq::<Seq<u8>>::empty());
    }
    Path { absolute: true, comps: acc }
}

// ---------------------------------------------------------------------------
// Resolution.
// ---------------------------------------------------------------------------

/// Walk the inode table along `comps` from `cur`, carrying the previous
/// inode.  Yields the resolved inode (if the whole path exists) and its
/// parent (if all but the last component exists).  A `.` or `..` component
/// in a supposedly normalized path resolves to nothing, as does descending
/// through anything that is not a directory.
pub open spec fn walk(
    t: Seq<InodePairV>,
    cur: Option<usize>,
    prev: Option<usize>,
    comps: Seq<Seq<u8>>,
) -> (Option<usize>, Option<usize>)
    decreases comps.len(),
{
    if comps.len() == 0 {
        (cur, prev)
    } else {
        let c = comps[0];
        if c == dot() || c == dotdot() {
            (None, None)
        } else if cur is None {
            (None, None)
        } else {
            match tbl_lookup(t, cur->Some_0) {
                Some(InodeV::Dir(d)) => walk(t, dict_lookup(d.dict, c), cur, comps.skip(1)),
                _ => (None, None),
            }
        }
    }
}

/// Whether resolving `comps` from `cur` runs into an inode that exists but
/// is not a directory where one is needed: an intermediate component, or
/// the parent of the last component.  Distinguishes that failure (which
/// surfaces as `ENOTDIR`) from a missing component (`ENOENT`).
pub open spec fn walk_nondir(t: Seq<InodePairV>, cur: Option<usize>, comps: Seq<Seq<u8>>) -> bool
    decreases comps.len(),
{
    if comps.len() == 0 {
        false
    } else {
        let c = comps[0];
        if c == dot() || c == dotdot() {
            false
        } else if cur is None {
            false
        } else {
            match tbl_lookup(t, cur->Some_0) {
                Some(InodeV::Dir(d)) => walk_nondir(t, dict_lookup(d.dict, c), comps.skip(1)),
                Some(_) => true,
                None => false,
            }
        }
    }
}

/// Whether resolving `path` fails by descending into (or ending beside) a
/// non-directory: the executable side of `walk_nondir`.
pub fn walk_blocked_by_nondir(path: &Path, fs: &FilesystemMetadata) -> (r: bool)
    ensures
        r == walk_nondir(fs@.inodetable, Some(ROOTDIRECTORYINODE), path@.comps),
{
    let mut cur: Option<usize> = Some(ROOTDIRECTORYINODE);
    let dd = name_dotdot();
    let d = name_dot();
    let mut i: usize = 0;
    proof {
        assert(path@.comps.skip(0) =~= path@.comps);
    }
    while i < path.comps.len()
        invariant
            i <= path.comps@.len(),
            dd@ == dotdot(),
            d@ == dot(),
            walk_nondir(fs@.inodetable, Some(ROOTDIRECTORYINODE), path@.comps) == walk_nondir(
                fs@.inodetable,
                cur,
                path@.comps.skip(i as int),
            ),
        decreases path.comps@.len() - i,
    {
        let c = &path.comps[i];
        proof {
            assert(path@.comps.skip(i as int)[0] == c@);
            assert(path@.comps.skip(i as int).skip(1) =~= path@.comps.skip(i + 1 as int));
        }
        if bytes_eq(c, &dd) || bytes_eq(c, &d) {
            return false;
        }
        match cur {
            None => {
                return false;
            },
            Some(curnum) => {
                match tbl_find(&fs.inodetable, curnum) {
                    Some(idx) => {
                        match &fs.inodetable[idx].inode {
                            Inode::Dir(dirino) => {
                                let child = match dict_find(&dirino.filename_to_inode_dict, c) {
                                    Some(j) => Some(dirino.filename_to_inode_dict[j].inode),
                                    None => None,
                                };
                                cur = child;
                            },
                            _ => {
                                return true;
                            },
                        }
                    },
                    None => {
                        return false;
                    },
                }
            },
        }
        i = i + 1;
    }
    proof {
        assert(path@.comps.skip(path.comps@.len() as int) =~= Seq::<Seq<u8>>::empty());
    }
    false
}

/// Resolve a normalized path: the inode it names, and the inode of its
/// parent directory, each where present.
pub fn metawalkandparent(path: &Path, fs: &FilesystemMetadata) -> (r: (Option<usize>, Option<usize>))
    ensures
        r == walk(fs@.inodetable, Some(ROOTDIRECTORYINODE), None, path@.comps),
{
    let mut cur: Option<usize> = Some(ROOTDIRECTORYINODE);
    let mut prev: Option<usize> = None;
    let dd = name_dotdot();
    let d = name_dot();
    let mut i: usize = 0;
    proof {
        assert(path@.comps.skip(0) =~= path@.comps);
    }
    while i < path.comps.len()
        invariant
            i <= path.comps@.len(),
            dd@ == dotdot(),
            d@ == dot(),
            walk(fs@.inodetable, Some(ROOTDIRECTORYINODE), None, path@.comps) == walk(
                fs@.inodetable,
                cur,
                prev,
                path@.comps.skip(i as int),
            ),
        decreases path.comps@.len() - i,
    {
        let c = &path.comps[i];
        proof {
            assert(path@.comps.skip(i as int)[0] == c@);
            assert(path@.comps.skip(i as int).skip(1) =~= path@.comps.skip(i + 1 as int));
        }
        if bytes_eq(c, &dd) || bytes_eq(c, &d) {
            return (None, None);
        }
        match cur {
            None => {
                return (None, None);
            },
            Some(curnum) => {
                match tbl_find(&fs.inodetable, curnum) {
                    Some(idx) => {
                        match &fs.inodetable[idx].inode {
                            Inode::Dir(dirino) => {
                                let child = match dict_find(&dirino.filename_to_inode_dict, c) {
                                    Some(j) => Some(dirino.filename_to_inode_dict[j].inode),
                                    None => None,
                                };
                                prev = cur;
                                cur = child;
                            },
                            _ => {
                                return (None, None);
                            },
                        }
                    },
                    None => {
                        return (None, None);
                    },
                }
            },
        }
        i = i + 1;
    }
    proof {
        assert(path@.comps.skip(path.comps@.len() as int) =~= Seq::<Seq<u8>>::empty());
    }
    (cur, prev)
}

/// Resolve a normalized path to its inode number.
pub fn metawalk(path: &Path, fs: &FilesystemMetadata) -> (r: Option<usize>)
    ensures
        r == walk(fs@.inodetable, Some(ROOTDIRECTORYINODE), None, path@.comps).0,
{
    metawalkandparent(path, fs).0
}

} // verus!

verus! {

// ---------------------------------------------------------------------------
// Reverse lookups: inode number back to a name, and back to a full path.
// ---------------------------------------------------------------------------

/// The first name a directory dictionary maps to `target`.
pub open spec fn dict_name_of(s: Seq<DirEntryV>, target: usize) -> Option<Seq<u8>>
    decreases s.len(),
{
    if s.len() == 0 {
        None
    } else if s[0].inode == target {
        Some(s[0].name)
    } else {
        dict_name_of(s.skip(1), target)
    }
}

pub proof fn lemma_dict_name_of_skip(s: Seq<DirEntryV>, target: usize, i: int)
    requires
        0 <= i <= s.len(),
        forall|j: int| 0 <= j < i ==> s[j].inode != target,
    ensures
        dict_name_of(s, target) == dict_name_of(s.skip(i), target),
    decreases i,
{
    if i > 0 {
        assert(s.skip(1).skip(i - 1) =~= s.skip(i));
        lemma_dict_name_of_skip(s.skip(1), target, i - 1);
    } else {
        assert(s.skip(0) =~= s);
    }
}

/// What `filenamefrominode` computes: the first name under which directory
/// `dir` lists `target`, where `dir` resolves to a directory at all.
pub open spec fn filename_from_inode_spec(
    t: Seq<InodePairV>,
    dir: usize,
    target: usize,
) -> Option<Seq<u8>> {
    match tbl_lookup(t, dir) {
        Some(InodeV::Dir(d)) => dict_name_of(d.dict, target),
        _ => None,
    }
}

/// Find the name of inode `target_inode` within directory `dir_inode_no`.
pub fn filenamefrominode(fs: &FilesystemMetadata, dir_inode_no: usize, target_inode: usize) -> (r:
    Option<Vec<u8>>)
    ensures
        match r {
            Some(name) => filename_from_inode_spec(fs@.inodetable, dir_inode_no, target_inode)
                == Some(name@),
            None => filename_from_inode_spec(fs@.inodetable, dir_inode_no, target_inode) is None,
        },
{
    match tbl_find(&fs.inodetable, dir_inode_no) {
        None => None,
        Some(idx) => {
            proof {
                assert(tbl_v(fs.inodetable@)[idx as int] == fs.inodetable@[idx as int]@);
            }
            match &fs.inodetable[idx].inode {
                Inode::Dir(d) => {
                    proof {
                        assert(tbl_lookup(fs@.inodetable, dir_inode_no) == Some(InodeV::Dir(d@)));
                    }
                    let dict = &d.filename_to_inode_dict;
                    let ghost dv = crate::fs::dict_v(dict@);
                    let mut i: usize = 0;
                    while i < dict.len()
                        invariant
                            i <= dict@.len(),
                            dv == crate::fs::dict_v(dict@),
                            filename_from_inode_spec(fs@.inodetable, dir_inode_no, target_inode)
                                == dict_name_of(dv, target_inode),
                            forall|j: int| 0 <= j < i ==> dv[j].inode != target_inode,
                        decreases dict@.len() - i,
                    {
                        if dict[i].inode == target_inode {
                            proof {
                                assert(dv.len() == dict@.len());
                                assert(dv[i as int] == dict@[i as int]@);
                                lemma_dict_name_of_skip(dv, target_inode, i as int);
                                assert(dv.skip(i as int)[0] == dv[i as int]);
                                assert(dict_name_of(dv, target_inode) == Some(dv[i as int].name));
                            }
                            let out = clone_bytes(&dict[i].name);
                            return Some(out);
                        }
                        i = i + 1;
                    }
                    proof {
                        lemma_dict_name_of_skip(dv, target_inode, dict@.len() as int);
                    }
                    None
                },
                _ => None,
            }
        },
    }
}

/// What `pathnamefrominodenum` computes: walk `..` links upward,
/// accumulating each directory's name, until the root is reached.  `fuel`
/// bounds the walk so that a damaged tree with a cycle resolves to nothing
/// instead of looping.
pub open spec fn pathname_rec(
    t: Seq<InodePairV>,
    cur: usize,
    first: bool,
    acc: Seq<u8>,
    fuel: nat,
) -> Option<Seq<u8>>
    decreases fuel,
{
    if fuel == 0 {
        None
    } else {
        match tbl_lookup(t, cur) {
            Some(InodeV::Dir(d)) => {
                match dict_lookup(d.dict, dotdot()) {
                    Some(parent) => {
                        if parent == ROOTDIRECTORYINODE && !first {
                            Some(seq![SEP] + acc)
                        } else {
                            let first2 = if parent == ROOTDIRECTORYINODE {
                                false
                            } else {
                                first
                            };
                            match filename_from_inode_spec(t, parent, cur) {
                                Some(name) => pathname_rec(
                                    t,
                                    parent,
                                    first2,
                                    name + seq![SEP] + acc,
                                    (fuel - 1) as nat,
                                ),
                                None => None,
                            }
                        }
                    },
                    None => None,
                }
            },
            _ => None,
        }
    }
}

/// Reconstruct the absolute path of directory `inodenum` by walking parent
/// links; nothing is returned if any link is broken or the walk does not
/// reach the root.
pub fn pathnamefrominodenum(fs: &FilesystemMetadata, inodenum: usize) -> (r: Option<Vec<u8>>)
    ensures
        match r {
            Some(p) => pathname_rec(
                fs@.inodetable,
                inodenum,
                true,
                Seq::<u8>::empty(),
                fs@.inodetable.len(),
            ) == Some(p@),
            None => pathname_rec(
                fs@.inodetable,
                inodenum,
                true,
                Seq::<u8>::empty(),
                fs@.inodetable.len(),
            ) is None,
        },
{
    let ghost t = fs@.inodetable;
    let mut path_string: Vec<u8> = Vec::new();
    let mut first = true;
    let mut cur = inodenum;
    let mut fuel: usize = fs.inodetable.len();
    let dd = name_dotdot();
    while fuel > 0
        invariant
            dd@ == dotdot(),
            t == fs@.inodetable,
            fuel <= fs@.inodetable.len(),
            pathname_rec(t, inodenum, true, Seq::<u8>::empty(), fs@.inodetable.len())
                == pathname_rec(t, cur, first, path_string@, fuel as nat),
        decreases fuel,
    {
        let ghost cur0 = cur;
        let ghost first0 = first;
        let ghost ps0 = path_string@;
        let ghost fuel0 = fuel;
        let idx = match tbl_find(&fs.inodetable, cur) {
            Some(idx) => idx,
            None => {
                return None;
            },
        };
        proof {
            assert(tbl_v(fs.inodetable@)[idx as int] == fs.inodetable@[idx as int]@);
        }
        match &fs.inodetable[idx].inode {
            Inode::Dir(d) => {
                proof {
                    assert(tbl_lookup(t, cur0) == Some(InodeV::Dir(d@)));
                }
                let parent = match dict_find(&d.filename_to_inode_dict, &dd) {
                    Some(j) => {
                        proof {
                            assert(crate::fs::dict_v(d.filename_to_inode_dict@)[j as int]
                                == d.filename_to_inode_dict@[j as int]@);
                        }
                        d.filename_to_inode_dict[j].inode
                    },
                    None => {
                        return None;
                    },
                };
                proof {
                    assert(dict_lookup(d@.dict, dotdot()) == Some(parent));
                }
                if parent == ROOTDIRECTORYINODE {
                    if !first {
                        let mut out: Vec<u8> = Vec::new();
                        out.push(SEP);
                        out.append(&mut path_string);
                        proof {
                            assert(pathname_rec(t, cur0, first0, ps0, fuel0 as nat) == Some(
                                seq![SEP] + ps0,
                            ));
                            assert(out@ =~= seq![SEP] + ps0);
                        }
                        return Some(out);
                    }
                    first = false;
                }
                match filenamefrominode(fs, parent, cur) {
                    Some(fname) => {
                        let mut newpath = clone_bytes(&fname);
                        newpath.push(SEP);
                        newpath.append(&mut path_string);
                        proof {
                            assert(newpath@ =~= fname@ + seq![SEP] + ps0);
                        }
                        path_string = newpath;
                        cur = parent;
                        proof {
                            assert(pathname_rec(t, cur0, first0, ps0, fuel0 as nat)
                                == pathname_rec(t, cur, first, path_string@, (fuel0 - 1) as nat));
                        }
                    },
                    None => {
                        return None;
                    },
                }
            },
            _ => {
                return None;
            },
        }
        fuel = fuel - 1;
    }
    None
}

} // verus!

verus! {

/// A directory after one open reference to it goes away: the count drops,
/// and a directory that was already unlinked disappears with its last
/// reference.
pub open spec fn decref_outcome(o: Option<InodeV>) -> Option<InodeV> {
    match o {
        Some(InodeV::Dir(d)) => if d.refcount - 1 == 0 && d.linkcount == 0 {
            None
        } else {
            Some(
                InodeV::Dir(
                    crate::fs::DirectoryInodeV { refcount: (d.refcount - 1) as u32, ..d },
                ),
            )
        },
        _ => o,
    }
}

/// Drop one open reference to the working directory `cwd_container`.
pub fn decref_dir(fs: &mut FilesystemMetadata, cwd_container: &Path)
    requires
        fs_wf(old(fs)@),
        walk(
            tbl_v(old(fs).inodetable@),
            Some(ROOTDIRECTORYINODE),
            None,
            cwd_container@.comps,
        ).0 matches Some(n) && (tbl_lookup(old(fs)@.inodetable, n) matches Some(InodeV::Dir(d))
            && d.refcount >= 1),
    ensures
        final(fs)@.nextinode == old(fs)@.nextinode,
        final(fs)@.dev_id == old(fs)@.dev_id,
        ({
            let n = walk(
                tbl_v(old(fs).inodetable@),
                Some(ROOTDIRECTORYINODE),
                None,
                cwd_container@.comps,
            ).0->Some_0;
            forall|m: usize| #[trigger]
                tbl_lookup(final(fs)@.inodetable, m) == if m == n {
                    decref_outcome(tbl_lookup(old(fs)@.inodetable, n))
                } else {
                    tbl_lookup(old(fs)@.inodetable, m)
                }
        }),
        fs_wf(final(fs)@),
{
    let ghost t0 = tbl_v(fs.inodetable@);
    let cwdinodenum = match metawalk(cwd_container, fs) {
        Some(n) => n,
        None => {
            proof {
                assert(false);
            }
            vstd::pervasive::unreached()
        },
    };
    let idx = match tbl_find(&fs.inodetable, cwdinodenum) {
        Some(i) => i,
        None => {
            proof {
                assert(false);
            }
            vstd::pervasive::unreached()
        },
    };
    let ghost oldrow = t0[idx as int];
    let mut pair = fs.inodetable.remove(idx);
    proof {
        assert(pair@ == oldrow);
    }
    let remove_it = match &mut pair.inode {
        Inode::Dir(d) => {
            d.refcount = d.refcount - 1;
            d.refcount == 0 && d.linkcount == 0
        },
        _ => {
            proof {
                assert(false);
            }
            false
        },
    };
    if remove_it {
        proof {
            assert(tbl_v(fs.inodetable@) =~= t0.remove(idx as int));
            assert forall|m: usize| #[trigger]
                tbl_lookup(tbl_v(fs.inodetable@), m) == (if m == cwdinodenum {
                    decref_outcome(tbl_lookup(t0, cwdinodenum))
                } else {
                    tbl_lookup(t0, m)
                }) by {
                crate::fs::lemma_tbl_lookup_remove(t0, cwdinodenum, idx as int, m);
            }
        }
    } else {
        proof {
            assert(pair@ == InodePairV {
                num: oldrow.num,
                inode: decref_outcome(Some(oldrow.inode))->Some_0,
            });
        }
        fs.inodetable.insert(idx, pair);
        proof {
            let p = InodePairV {
                num: oldrow.num,
                inode: decref_outcome(Some(oldrow.inode))->Some_0,
            };
            assert(tbl_v(fs.inodetable@) =~= t0.update(idx as int, p));
            assert forall|m: usize| #[trigger]
                tbl_lookup(tbl_v(fs.inodetable@), m) == (if m == cwdinodenum {
                    decref_outcome(tbl_lookup(t0, cwdinodenum))
                } else {
                    tbl_lookup(t0, m)
                }) by {
                crate::fs::lemma_tbl_lookup_update(t0, cwdinodenum, idx as int, p, m);
            }
        }
    }
    proof {
        {
            if remove_it {
                assert forall|k: int|
                    0 <= k < tbl_v(fs.inodetable@).len() implies (#[trigger] tbl_v(
                    fs.inodetable@,
                )[k]).num < fs.nextinode && inode_wf(tbl_v(fs.inodetable@)[k].inode) by {
                    if k < idx {
                        assert(tbl_v(fs.inodetable@)[k] == t0[k]);
                    } else {
                        assert(tbl_v(fs.inodetable@)[k] == t0[k + 1]);
                    }
                }
                assert(crate::fs::tbl_unique(tbl_v(fs.inodetable@))) by {
                    assert(forall|j: int|
                        0 <= j < tbl_v(fs.inodetable@).len() ==> tbl_v(fs.inodetable@)[j] == (if j
                            < idx {
                            t0[j]
                        } else {
                            t0[j + 1]
                        }));
                }
            } else {
                assert forall|k: int|
                    0 <= k < tbl_v(fs.inodetable@).len() implies (#[trigger] tbl_v(
                    fs.inodetable@,
                )[k]).num < fs.nextinode && inode_wf(tbl_v(fs.inodetable@)[k].inode) by {
                    if k != idx {
                        assert(tbl_v(fs.inodetable@)[k] == t0[k]);
                    }
                }
                assert(crate::fs::tbl_unique(tbl_v(fs.inodetable@))) by {
                    assert(forall|j: int|
                        0 <= j < tbl_v(fs.inodetable@).len() ==> tbl_v(fs.inodetable@)[j].num
                            == t0[j].num);
                }
            }
        }
    }
}

} // verus!

verus! {

pub fn clone_path(p: &Path) -> (r: Path)
    ensures
        r@ == p@,
{
    let mut comps: Vec<Vec<u8>> = Vec::new();
    let mut i: usize = 0;
    while i < p.comps.len()
        invariant
            i <= p.comps@.len(),
            comps@.len() == i,
            forall|j: int| 0 <= j < i ==> #[trigger] comps@[j]@ == p.comps@[j]@,
        decreases p.comps@.len() - i,
    {
        comps.push(clone_bytes(&p.comps[i]));
        i = i + 1;
    }
    let r = Path { absolute: p.absolute, comps };
    proof {
        assert(comps_v(r.comps@).len() == r.comps@.len());
        assert(comps_v(r.comps@) =~= comps_v(p.comps@));
    }
    r
}

/// Exec equality of paths, the mirror of view equality.
pub fn path_eq(a: &Path, b: &Path) -> (r: bool)
    ensures
        r == (a@ == b@),
{
    if a.absolute != b.absolute {
        return false;
    }
    if a.comps.len() != b.comps.len() {
        proof {
            assert(comps_v(a.comps@).len() == a.comps@.len());
            assert(comps_v(b.comps@).len() == b.comps@.len());
        }
        return false;
    }
    let mut i: usize = 0;
    while i < a.comps.len()
        invariant
            i <= a.comps@.len(),
            a.comps@.len() == b.comps@.len(),
            a.absolute == b.absolute,
            forall|j: int| 0 <= j < i ==> #[trigger] a.comps@[j]@ == b.comps@[j]@,
        decreases a.comps@.len() - i,
    {
        if !bytes_eq(&a.comps[i], &b.comps[i]) {
            proof {
                assert(comps_v(a.comps@)[i as int] != comps_v(b.comps@)[i as int]);
            }
            return false;
        }
        i = i + 1;
    }
    proof {
        assert(comps_v(a.comps@).len() == a.comps@.len());
        assert(comps_v(a.comps@) =~= comps_v(b.comps@));
    }
    true
}

} // verus!
