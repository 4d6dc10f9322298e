use rustfaas::error::ErrorKind;
use rustfaas::multipart::FilePart;
use rustfaas::store::{check_name, ArtifactStore, FunctionArtifact};

fn store() -> ArtifactStore {
    ArtifactStore::new(b"uploads".to_vec(), b"so".to_vec())
}

#[test]
fn artifact_path_is_dir_name_extension() {
    assert_eq!(store().resolve_path(b"sum"), b"uploads/sum.so".to_vec());
}

#[test]
fn transit_path_is_hidden_beside_the_artifact() {
    assert_eq!(store().temp_path(b"sum"), b"uploads/.sum.so".to_vec());
}

#[test]
fn transit_path_differs_from_every_artifact_path() {
    let s = store();
    assert_ne!(s.temp_path(b"sum"), s.resolve_path(b"sum"));
    assert_ne!(s.temp_path(b"sum"), s.resolve_path(b"sum.so"));
}

#[test]
fn safe_names_are_accepted() {
    assert!(check_name(b"sum"));
    assert!(check_name(b"my-func_2"));
    assert!(check_name(b"a.b"));
    assert!(check_name(b"a..b"));
}

#[test]
fn unsafe_names_are_refused() {
    assert!(!check_name(b""));
    assert!(!check_name(b"."));
    assert!(!check_name(b".."));
    assert!(!check_name(b".hidden"));
    assert!(!check_name(b"a/b"));
    assert!(!check_name(b"../etc/passwd"));
    assert!(!check_name(b"a\\b"));
    assert!(!check_name(b"a\0b"));
}

#[test]
fn file_name_gives_function_name() {
    assert_eq!(store().function_name(b"sum.so"), Ok(b"sum".to_vec()));
    assert_eq!(store().function_name(b"a.b.so"), Ok(b"a.b".to_vec()));
}

#[test]
fn file_name_without_extension_is_invalid() {
    assert_eq!(store().function_name(b"sum"), Err(ErrorKind::InvalidFilename));
    assert_eq!(store().function_name(b"sum.dll"), Err(ErrorKind::InvalidFilename));
    assert_eq!(store().function_name(b"sumso"), Err(ErrorKind::InvalidFilename));
    assert_eq!(store().function_name(b".so"), Err(ErrorKind::InvalidFilename));
    assert_eq!(store().function_name(b"so"), Err(ErrorKind::InvalidFilename));
    assert_eq!(store().function_name(b""), Err(ErrorKind::InvalidFilename));
}

#[test]
fn path_traversal_in_file_name_is_invalid() {
    assert_eq!(store().function_name(b"../sum.so"), Err(ErrorKind::InvalidFilename));
    assert_eq!(store().function_name(b"/etc/sum.so"), Err(ErrorKind::InvalidFilename));
    assert_eq!(store().function_name(b"a/../../sum.so"), Err(ErrorKind::InvalidFilename));
    assert_eq!(store().function_name(b"..\\sum.so"), Err(ErrorKind::InvalidFilename));
    assert_eq!(store().function_name(b"...so"), Err(ErrorKind::InvalidFilename));
}

#[test]
fn uploaded_file_becomes_artifact_under_its_own_name() {
    let file = FilePart { filename: b"sum.so".to_vec(), bytes: vec![1, 2, 3] };
    assert_eq!(
        store().artifact(file),
        Ok(FunctionArtifact {
            name: b"sum".to_vec(),
            storage_path: b"uploads/sum.so".to_vec(),
            bytes: vec![1, 2, 3],
        })
    );
}

#[test]
fn artifact_of_invalid_file_name_is_refused() {
    let file = FilePart { filename: b"../x.so".to_vec(), bytes: vec![1] };
    assert_eq!(store().artifact(file), Err(ErrorKind::InvalidFilename));
}

#[test]
fn stored_path_is_where_invocation_looks() {
    let s = store();
    let file = FilePart { filename: b"sum.so".to_vec(), bytes: vec![9] };
    let artifact = s.artifact(file).unwrap();
    assert_eq!(artifact.storage_path, s.resolve_path(b"sum"));
    let mut verbatim = b"uploads/".to_vec();
    verbatim.extend_from_slice(b"sum.so");
    assert_eq!(artifact.storage_path, verbatim);
}

#[test]
fn extension_of_the_store_is_used() {
    let s = ArtifactStore::new(b"/var/fn".to_vec(), b"dylib".to_vec());
    assert_eq!(s.resolve_path(b"f"), b"/var/fn/f.dylib".to_vec());
    assert_eq!(s.function_name(b"f.dylib"), Ok(b"f".to_vec()));
    assert_eq!(s.function_name(b"f.so"), Err(ErrorKind::InvalidFilename));
}
