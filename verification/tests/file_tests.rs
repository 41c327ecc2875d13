use safeposix::bytesio::convert_bytes_to_size;
use safeposix::hostfs::pathexists;

#[test]
fn test_path_exists_true() {
    let temp_file = tempfile::NamedTempFile::new().unwrap();
    let file_path = temp_file.path().to_str().unwrap().to_string();
    assert!(pathexists(file_path));
}

#[test]
fn test_path_exists_false() {
    // Test that pathexists returns false for a non-existent file
    let non_existent_file = "/tmp/non_existent_file.txt";
    assert!(!pathexists(non_existent_file.to_string()));
}

#[test]
fn convert_bytes_round_value() {
    let bytes: Vec<u8> = vec![0, 0, 0, 0, 0, 0, 1, 2];
    assert_eq!(convert_bytes_to_size(bytes.as_slice()), 258);
    let bytes2: Vec<u8> = vec![0, 0, 0, 0, 0, 0, 0, 0];
    assert_eq!(convert_bytes_to_size(bytes2.as_slice()), 0);
}
