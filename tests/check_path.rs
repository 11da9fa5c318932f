use file_seek::check_path::{is_valid_directory, is_valid_file, CanonicalPath, PathError, PathKind};

const ROOT: &str = "/work/project";

fn found(relative: &str, kind: PathKind) -> Result<CanonicalPath, String> {
    Ok(CanonicalPath { text: Some(format!("{}/{}", ROOT, relative)), kind })
}

fn missing() -> Result<CanonicalPath, String> {
    Err("No such file or directory (os error 2)".to_string())
}

#[test]
fn test_is_valid_directory_valid_directory() {
    let result = is_valid_directory(found("test_file", PathKind::Directory));
    assert!(result.is_ok());
    let _fill_path = result.unwrap();
}

#[test]
fn test_is_valid_directory_invalid_directory() {
    let result = is_valid_directory(found(
        "test_file/dummy_not_target_files_dir/file1.txt",
        PathKind::File,
    ));
    assert!(result.is_err());
}

#[test]
fn test_is_valid_directory_failed_conversion() {
    // "nonexistent_dir" does not resolve
    let result = is_valid_directory(missing());
    assert!(result.is_err());
}

#[test]
fn test_is_valid_file_valid_file() {
    let result = is_valid_file(found("test_file/dummy_target_files_dir/file2.pdf", PathKind::File));
    assert!(result.is_ok());
    let _full_path = result.unwrap();
}

#[test]
fn test_is_valid_file_invalid_file() {
    let result = is_valid_file(found("test_file", PathKind::Directory));
    assert!(result.is_err());
}

#[test]
fn test_is_valid_file_failed_conversion() {
    // "nonexistent_file.pdf" does not resolve
    let result = is_valid_file(missing());
    assert!(result.is_err());
}

#[test]
fn directory_validates_to_its_canonical_path() {
    match is_valid_directory(found("test_file", PathKind::Directory)) {
        Ok(p) => assert_eq!(p, "/work/project/test_file"),
        Err(e) => panic!("unexpected error {:?}", e),
    }
}

#[test]
fn unresolved_path_fails_both_with_io_error() {
    for result in [is_valid_directory(missing()), is_valid_file(missing())] {
        match result {
            Err(PathError::Io(m)) => assert_eq!(m, "No such file or directory (os error 2)"),
            other => panic!("unexpected {:?}", other),
        }
    }
}

#[test]
fn file_validates_as_file_not_directory() {
    let file = found("notes.txt", PathKind::File);
    match is_valid_file(file.clone()) {
        Ok(p) => assert_eq!(p, "/work/project/notes.txt"),
        Err(e) => panic!("unexpected error {:?}", e),
    }
    match is_valid_directory(file) {
        Err(PathError::NotADirectory(p)) => assert_eq!(p, "/work/project/notes.txt"),
        other => panic!("unexpected {:?}", other),
    }
}

#[test]
fn directory_is_not_a_file() {
    match is_valid_file(found("test_file", PathKind::Directory)) {
        Err(PathError::NotAFile(p)) => assert_eq!(p, "/work/project/test_file"),
        other => panic!("unexpected {:?}", other),
    }
}

#[test]
fn other_kind_fails_both_checks() {
    let fifo = found("pipe", PathKind::Other);
    assert!(matches!(is_valid_directory(fifo.clone()), Err(PathError::NotADirectory(_))));
    assert!(matches!(is_valid_file(fifo), Err(PathError::NotAFile(_))));
}

#[test]
fn canonical_path_that_is_not_text_fails_with_conversion_error() {
    let resolved = Ok(CanonicalPath { text: None, kind: PathKind::Directory });
    match is_valid_directory(resolved) {
        Err(PathError::Io(m)) => assert_eq!(m, "Failed to convert path to string"),
        other => panic!("unexpected {:?}", other),
    }
    let resolved = Ok(CanonicalPath { text: None, kind: PathKind::File });
    assert!(matches!(is_valid_file(resolved), Err(PathError::Io(_))));
}
