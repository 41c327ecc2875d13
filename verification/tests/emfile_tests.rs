use safeposix::emfile::EmulatedFile;

#[test]
fn test_new_emulated_file() {
    let filename = "test_file.txt";
    let filesize = 1024;

    let emulated_file = EmulatedFile::from_bytes(filename.as_bytes().to_vec(), vec![0u8; 1024]);

    assert_eq!(emulated_file.filename, filename.as_bytes().to_vec());
    assert_eq!(emulated_file.filesize, filesize);
}

#[test]
fn test_readat_emulated_file() {
    let file_content = b"Hello, world!";
    let emulated_file = EmulatedFile::from_bytes(b"r.txt".to_vec(), file_content.to_vec());

    let buffer = emulated_file.readat(file_content.len(), 0).unwrap();
    assert_eq!(buffer.len(), file_content.len());
    assert_eq!(buffer, file_content.to_vec());
}

#[test]
fn test_writeat_emulated_file() {
    let file_content = b"Hello, world!";
    let mut emulated_file = EmulatedFile::from_bytes(b"w.txt".to_vec(), file_content.to_vec());

    let new_content = b"test_writeat_emulated_file, world!".to_vec();
    let bytes_written = emulated_file.writeat(&new_content, new_content.len(), 0).unwrap();

    assert_eq!(bytes_written, new_content.len());
    assert_eq!(emulated_file.filesize, new_content.len());

    let buffer = emulated_file.readat(new_content.len(), 0).unwrap();
    assert_eq!(buffer, new_content);
}

// Writing at an offset and reading the same span back returns exactly the
// written bytes, for a file with a single writer.
#[test]
fn write_then_read_roundtrip() {
    let mut f = EmulatedFile::from_bytes(b"rt.bin".to_vec(), b"0123456789".to_vec());
    let payload = b"ABCD".to_vec();
    assert_eq!(f.writeat(&payload, 4, 3).unwrap(), 4);
    assert_eq!(f.readat(4, 3).unwrap(), payload);
    assert_eq!(f.readat(3, 0).unwrap(), b"012".to_vec());
    assert_eq!(f.readat(3, 7).unwrap(), b"789".to_vec());
    // a write past the end grows the recorded size
    assert_eq!(f.writeat(&payload, 4, 10).unwrap(), 4);
    assert_eq!(f.filesize, 14);
    // an offset past the recorded size is refused
    assert!(f.readat(1, 15).is_err());
    assert!(f.shrink(20).is_err());
    assert_eq!(f.shrink(3), Ok(()));
    assert_eq!(f.readfile_to_new_bytes(), b"012".to_vec());
}
