use safeposix::fs::{
    format_fs, tbl_find, DirEntry, GenericInode, Inode, InodePair,
};
use safeposix::paths::{convpath, metawalk, normpath, Path};
use safeposix::persist::{create_log, log_metadata, persist_metadata};
use safeposix::recover::load_fs;

fn root_cwd() -> Path {
    Path { absolute: true, comps: Vec::new() }
}

fn file_inode(linkcount: u32) -> Inode {
    Inode::File(GenericInode {
        size: 0,
        uid: 1000,
        gid: 1000,
        mode: 0o100644,
        linkcount,
        refcount: 1,
        atime: 0,
        ctime: 0,
        mtime: 0,
    })
}

// Journal replay: two files created after the snapshot come back from the
// journal alone, and the next inode number moves past them.
#[test]
fn journal_replay_restores_files() {
    let mut m = format_fs(1);
    let snapshot = persist_metadata(&m);
    let mut log = create_log();

    // create /tmp/a (inode 8) and /tmp/b (inode 9) after the snapshot
    for (name, ino) in [(b"a".to_vec(), 8usize), (b"b".to_vec(), 9usize)] {
        let tmpidx = tbl_find(&m.inodetable, 7).unwrap();
        let mut pair = m.inodetable.remove(tmpidx);
        match &mut pair.inode {
            Inode::Dir(d) => {
                d.filename_to_inode_dict.push(DirEntry { name, inode: ino });
                d.linkcount += 1;
            }
            _ => panic!("expected /tmp to be a directory"),
        }
        m.inodetable.insert(tmpidx, pair);
        m.inodetable.push(InodePair { num: ino, inode: file_inode(1) });
        m.nextinode = ino + 1;
        assert_eq!(log_metadata(&m, &mut log, ino), 0);
        assert_eq!(log_metadata(&m, &mut log, 7), 0);
    }

    let journal_bytes = log.full_log_bytes();
    let restored = load_fs(&Some(snapshot), &Some(journal_bytes), 2).unwrap();
    assert_eq!(restored.nextinode, 10);
    assert!(tbl_find(&restored.inodetable, 8).is_some());
    assert!(tbl_find(&restored.inodetable, 9).is_some());
    let parsed = convpath(&b"/tmp/a".to_vec());
    let tp = normpath(&parsed, &root_cwd());
    assert_eq!(metawalk(&tp, &restored), Some(8));
    let parsed_b = convpath(&b"/tmp/b".to_vec());
    let tp_b = normpath(&parsed_b, &root_cwd());
    assert_eq!(metawalk(&tp_b, &restored), Some(9));
}

// Replaying the same journal against the same snapshot a second time gives
// the same inode table.
#[test]
fn journal_replay_twice_same_table() {
    let mut m = format_fs(1);
    let snapshot = persist_metadata(&m);
    let mut log = create_log();
    let tmpidx = tbl_find(&m.inodetable, 7).unwrap();
    let mut pair = m.inodetable.remove(tmpidx);
    match &mut pair.inode {
        Inode::Dir(d) => {
            d.filename_to_inode_dict.push(DirEntry { name: b"a".to_vec(), inode: 8 });
            d.linkcount += 1;
        }
        _ => panic!("expected /tmp to be a directory"),
    }
    m.inodetable.insert(tmpidx, pair);
    m.inodetable.push(InodePair { num: 8, inode: file_inode(1) });
    m.nextinode = 9;
    assert_eq!(log_metadata(&m, &mut log, 8), 0);
    assert_eq!(log_metadata(&m, &mut log, 7), 0);
    let journal_bytes = log.full_log_bytes();

    let once = load_fs(&Some(snapshot.clone()), &Some(journal_bytes.clone()), 2).unwrap();
    let twice = load_fs(&Some(snapshot), &Some(journal_bytes), 2).unwrap();
    assert_eq!(once.inodetable.len(), twice.inodetable.len());
    for row in &once.inodetable {
        assert!(tbl_find(&twice.inodetable, row.num).is_some());
    }
}

// Serializing and reading back is the identity on the persisted fields,
// with the in-memory reference count reset to zero.
#[test]
fn snapshot_roundtrip_resets_refcount() {
    let mut m = format_fs(5);
    let ridx = tbl_find(&m.inodetable, 1).unwrap();
    let mut pair = m.inodetable.remove(ridx);
    match &mut pair.inode {
        Inode::Dir(d) => d.refcount = 3,
        _ => panic!("root must be a directory"),
    }
    m.inodetable.insert(ridx, pair);
    let bytes = persist_metadata(&m);
    let back = safeposix::persist::deserialize_metadata(&bytes).unwrap();
    assert_eq!(back.nextinode, m.nextinode);
    assert_eq!(back.dev_id, m.dev_id);
    assert_eq!(back.inodetable.len(), m.inodetable.len());
    let bidx = tbl_find(&back.inodetable, 1).unwrap();
    match &back.inodetable[bidx].inode {
        Inode::Dir(d) => {
            assert_eq!(d.refcount, 0);
            assert_eq!(d.linkcount, 5);
            assert_eq!(d.filename_to_inode_dict.len(), 4);
        }
        _ => panic!("root must come back as a directory"),
    }
}

// A corrupt snapshot is refused rather than half-read.
#[test]
fn corrupt_snapshot_is_fatal() {
    let m = format_fs(1);
    let mut bytes = persist_metadata(&m);
    bytes.truncate(bytes.len() - 3);
    assert!(safeposix::persist::deserialize_metadata(&bytes).is_none());
    assert!(load_fs(&Some(bytes), &None, 2).is_err());
}
