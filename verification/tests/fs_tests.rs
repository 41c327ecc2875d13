use safeposix::fs::{
    format_fs, tbl_find, FilesystemMetadata, Inode, S_IFCHR, S_IFDIR, S_IRWXA,
};
use safeposix::paths::{convpath, metawalk, normpath, pathnamefrominodenum, Path};
use safeposix::recover::load_fs;

fn root_cwd() -> Path {
    Path { absolute: true, comps: Vec::new() }
}

fn resolve(m: &FilesystemMetadata, p: &str) -> Option<usize> {
    let parsed = convpath(&p.as_bytes().to_vec());
    let tp = normpath(&parsed, &root_cwd());
    metawalk(&tp, m)
}

// Format then reload: an empty directory loads into the reserved tree with
// the four devices, /tmp, and the first free inode number.
#[test]
fn format_then_reload() {
    let m = load_fs(&None, &None, 7).unwrap();
    assert_eq!(m.nextinode, 8);
    assert_eq!(resolve(&m, "/"), Some(1));
    assert_eq!(resolve(&m, "/dev"), Some(2));
    assert_eq!(resolve(&m, "/dev/null"), Some(3));
    assert_eq!(resolve(&m, "/dev/zero"), Some(4));
    assert_eq!(resolve(&m, "/dev/urandom"), Some(5));
    assert_eq!(resolve(&m, "/dev/random"), Some(6));
    assert_eq!(resolve(&m, "/tmp"), Some(7));
    for devino in 3..=6usize {
        let idx = tbl_find(&m.inodetable, devino).unwrap();
        match &m.inodetable[idx].inode {
            Inode::CharDev(c) => assert_eq!(c.mode, S_IFCHR | 0o666),
            _ => panic!("device inode expected"),
        }
    }
    let idx = tbl_find(&m.inodetable, 7).unwrap();
    match &m.inodetable[idx].inode {
        Inode::Dir(d) => assert_eq!(d.mode, S_IFDIR | 0o755),
        _ => panic!("directory inode expected"),
    }
    let ridx = tbl_find(&m.inodetable, 1).unwrap();
    match &m.inodetable[ridx].inode {
        Inode::Dir(d) => {
            assert_eq!(d.mode, S_IFDIR | S_IRWXA);
            // `.`, `..`, `dev`, `tmp`: the link count is one more
            assert_eq!(d.linkcount, 5);
            assert_eq!(d.filename_to_inode_dict.len(), 4);
        }
        _ => panic!("root must be a directory"),
    }
}

#[test]
fn pathname_roundtrip_for_tmp() {
    let m = format_fs(3);
    let name = pathnamefrominodenum(&m, 7).unwrap();
    assert_eq!(name, b"/tmp/".to_vec());
}

#[test]
fn normpath_folds_dots() {
    let parsed = convpath(&b"/dev/../tmp/./x".to_vec());
    let tp = normpath(&parsed, &root_cwd());
    assert!(tp.absolute);
    assert_eq!(tp.comps.len(), 2);
    assert_eq!(tp.comps[0], b"tmp".to_vec());
    assert_eq!(tp.comps[1], b"x".to_vec());
}
