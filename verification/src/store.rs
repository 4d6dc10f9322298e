//! Naming of stored artifacts.
//!
//! The name of a function is at once the key under which its artifact is
//! stored, the stem of the artifact's file name and the entry point that is
//! looked up in the loaded module. This module derives all three from one
//! another; reading and writing the files is left to the caller.

use vstd::prelude::*;
use vstd::string::*;
use crate::bytes::{matches_at, starts_with_at, copy_range, append_bytes};
use crate::error::ErrorKind;
use crate::multipart::FilePart;

verus! {

/// The byte that parts a directory from a file name.
pub open spec fn slash() -> Seq<u8> {
    "/".spec_bytes()
}

/// The byte that parts a name from its extension, and that opens the name
/// of a file in transit.
pub open spec fn dot() -> Seq<u8> {
    ".".spec_bytes()
}

/// Whether a byte may stand in a function name: no path separator of any
/// platform and no zero byte.
pub open spec fn is_name_byte(b: u8) -> bool {
    b != 47 && b != 92 && b != 0
}

/// Whether a text can name a function: it is not empty, does not start with
/// a dot, and holds only name bytes. Such a name cannot lead out of the
/// upload directory.
pub open spec fn is_safe_name(name: Seq<u8>) -> bool {
    &&& name.len() > 0
    &&& name[0] != 46
    &&& forall|i: int| 0 <= i < name.len() ==> is_name_byte(#[trigger] name[i])
}

/// The file name of an artifact: the function name, a dot, the extension.
pub open spec fn file_name_of(name: Seq<u8>, extension: Seq<u8>) -> Seq<u8> {
    name + dot() + extension
}

/// The path of the artifact of `name`.
pub open spec fn artifact_path(dir: Seq<u8>, name: Seq<u8>, extension: Seq<u8>) -> Seq<u8> {
    dir + slash() + file_name_of(name, extension)
}

/// The path under which the artifact of `name` is written before it takes
/// its place: the artifact's file name behind a dot, in the same directory.
pub open spec fn transit_path(dir: Seq<u8>, name: Seq<u8>, extension: Seq<u8>) -> Seq<u8> {
    dir + slash() + dot() + file_name_of(name, extension)
}

/// The function name that a file name stands for: what precedes the dot and
/// the extension, if the file name ends with them and the rest is a safe name.
pub open spec fn name_of_file(filename: Seq<u8>, extension: Seq<u8>) -> Option<Seq<u8>> {
    let stem_len = filename.len() - extension.len() - dot().len();
    if stem_len >= 0 && matches_at(filename, dot() + extension, stem_len) && is_safe_name(
        filename.subrange(0, stem_len),
    ) {
        Some(filename.subrange(0, stem_len))
    } else {
        None
    }
}

/// Where artifacts are kept, and the extension that the platform gives to
/// loadable modules.
#[derive(Clone, Debug, PartialEq, Eq)]
pub struct ArtifactStore {
    pub upload_dir: Vec<u8>,
    pub extension: Vec<u8>,
}

/// A stored function: its name, the path of its file, and the file's bytes.
#[derive(Clone, Debug, PartialEq, Eq)]
pub struct FunctionArtifact {
    pub name: Vec<u8>,
    pub storage_path: Vec<u8>,
    pub bytes: Vec<u8>,
}

impl FunctionArtifact {
    /// An artifact belongs to a store when its name is safe and its path is
    /// the one that the store gives to that name.
    pub open spec fn belongs_to(&self, store: &ArtifactStore) -> bool {
        &&& is_safe_name(self.name@)
        &&& self.storage_path@ == artifact_path(
            store.upload_dir@,
            self.name@,
            store.extension@,
        )
    }
}

/// The values of the two separators.
pub proof fn lemma_separators()
    ensures
        slash() == seq![47u8],
        dot() == seq![46u8],
{
    reveal_strlit("/");
    reveal_strlit(".");
    assert(is_ascii("/"));
    assert(is_ascii("."));
    assert(slash() =~= seq![47u8]);
    assert(dot() =~= seq![46u8]);
}

/// Tells whether a text can name a function.
pub fn check_name(name: &[u8]) -> (safe: bool)
    ensures
        safe == is_safe_name(name@),
{
    if name.len() == 0 || name[0] == 46 {
        return false;
    }
    let mut i: usize = 0;
    while i < name.len()
        invariant
            i <= name.len(),
            forall|k: int| 0 <= k < i ==> is_name_byte(#[trigger] name@[k]),
        decreases name.len() - i,
    {
        let b = name[i];
        if b == 47 || b == 92 || b == 0 {
            return false;
        }
        i += 1;
    }
    true
}

impl ArtifactStore {
    /// A store over the directory `upload_dir`, for modules with the given
    /// extension.
    pub fn new(upload_dir: Vec<u8>, extension: Vec<u8>) -> (store: ArtifactStore)
        ensures
            store.upload_dir@ == upload_dir@,
            store.extension@ == extension@,
    {
        ArtifactStore { upload_dir, extension }
    }

    /// The path of the artifact of `name`.
    pub fn resolve_path(&self, name: &[u8]) -> (path: Vec<u8>)
        ensures
            path@ == artifact_path(self.upload_dir@, name@, self.extension@),
    {
        let mut path: Vec<u8> = Vec::new();
        append_bytes(&mut path, self.upload_dir.as_slice());
        append_bytes(&mut path, "/".as_bytes());
        append_bytes(&mut path, name);
        append_bytes(&mut path, ".".as_bytes());
        append_bytes(&mut path, self.extension.as_slice());
        proof {
            assert(path@ =~= artifact_path(self.upload_dir@, name@, self.extension@));
        }
        path
    }

    /// The path to which the artifact of `name` is written before it is
    /// moved to its place.
    pub fn temp_path(&self, name: &[u8]) -> (path: Vec<u8>)
        ensures
            path@ == transit_path(self.upload_dir@, name@, self.extension@),
    {
        let mut path: Vec<u8> = Vec::new();
        append_bytes(&mut path, self.upload_dir.as_slice());
        append_bytes(&mut path, "/".as_bytes());
        append_bytes(&mut path, ".".as_bytes());
        append_bytes(&mut path, name);
        append_bytes(&mut path, ".".as_bytes());
        append_bytes(&mut path, self.extension.as_slice());
        proof {
            assert(path@ =~= transit_path(self.upload_dir@, name@, self.extension@));
        }
        path
    }

    /// The function name that an uploaded file name stands for.
    ///
    /// Fails with `InvalidFilename` exactly when the file name is not a safe
    /// name followed by a dot and the store's extension.
    pub fn function_name(&self, filename: &[u8]) -> (name: Result<Vec<u8>, ErrorKind>)
        ensures
            match name_of_file(filename@, self.extension@) {
                Some(n) => name.is_ok() && name.unwrap()@ == n,
                None => name == Err::<Vec<u8>, ErrorKind>(ErrorKind::InvalidFilename),
            },
    {
        let ext = self.extension.as_slice();
        proof {
            lemma_separators();
        }
        if filename.len() < ext.len() || filename.len() - ext.len() < 1 {
            return Err(ErrorKind::InvalidFilename);
        }
        let stem_len: usize = filename.len() - ext.len() - 1;
        let mut suffix: Vec<u8> = Vec::new();
        append_bytes(&mut suffix, ".".as_bytes());
        append_bytes(&mut suffix, ext);
        if !starts_with_at(filename, suffix.as_slice(), stem_len) {
            return Err(ErrorKind::InvalidFilename);
        }
        let stem = copy_range(filename, 0, stem_len);
        if check_name(stem.as_slice()) {
            Ok(stem)
        } else {
            Err(ErrorKind::InvalidFilename)
        }
    }

    /// The artifact that an uploaded file becomes.
    ///
    /// Fails with `InvalidFilename` exactly when `function_name` does; else
    /// the artifact belongs to this store, is named by the file's stem and
    /// holds the file's bytes unchanged.
    pub fn artifact(&self, file: FilePart) -> (made: Result<FunctionArtifact, ErrorKind>)
        ensures
            match name_of_file(file.filename@, self.extension@) {
                Some(n) => {
                    &&& made.is_ok()
                    &&& made.unwrap().name@ == n
                    &&& made.unwrap().bytes@ == file.bytes@
                    &&& made.unwrap().belongs_to(self)
                },
                None => made == Err::<FunctionArtifact, ErrorKind>(ErrorKind::InvalidFilename),
            },
    {
        match self.function_name(file.filename.as_slice()) {
            Ok(name) => {
                let storage_path = self.resolve_path(name.as_slice());
                Ok(FunctionArtifact { name, storage_path, bytes: file.bytes })
            },
            Err(_) => Err(ErrorKind::InvalidFilename),
        }
    }
}

/// An uploaded file is stored under its own name: where a file name stands
/// for a function, the path of that function's artifact is the upload
/// directory, a slash and the file name as the client gave it.
pub proof fn lemma_stored_under_own_name(dir: Seq<u8>, filename: Seq<u8>, extension: Seq<u8>)
    requires
        name_of_file(filename, extension).is_some(),
    ensures
        artifact_path(dir, name_of_file(filename, extension).unwrap(), extension) == dir + slash()
            + filename,
{
    let name = name_of_file(filename, extension).unwrap();
    let stem_len = filename.len() - extension.len() - dot().len();
    assert(filename =~= name + filename.subrange(stem_len, filename.len() as int));
    assert(file_name_of(name, extension) =~= filename);
}

/// The file name of a function's artifact stands for that function.
pub proof fn lemma_name_of_own_file(name: Seq<u8>, extension: Seq<u8>)
    requires
        is_safe_name(name),
    ensures
        name_of_file(file_name_of(name, extension), extension) == Some(name),
{
    let filename = file_name_of(name, extension);
    let stem_len = filename.len() - extension.len() - dot().len();
    assert(stem_len == name.len());
    assert(filename.subrange(stem_len, stem_len + (dot() + extension).len()) =~= dot()
        + extension);
    assert(filename.subrange(0, stem_len) =~= name);
}

/// Two functions never share an artifact: equal paths mean equal names.
pub proof fn lemma_paths_differ(dir: Seq<u8>, a: Seq<u8>, b: Seq<u8>, extension: Seq<u8>)
    requires
        artifact_path(dir, a, extension) == artifact_path(dir, b, extension),
    ensures
        a == b,
{
    let pa = artifact_path(dir, a, extension);
    let pb = artifact_path(dir, b, extension);
    let skip = dir.len() + slash().len();
    assert(pa.len() == skip + a.len() + dot().len() + extension.len());
    assert(pb.len() == skip + b.len() + dot().len() + extension.len());
    assert(a =~= pa.subrange(skip as int, (skip + a.len()) as int));
    assert(b =~= pb.subrange(skip as int, (skip + b.len()) as int));
}

/// A file in transit is never taken for an artifact: the path to which an
/// upload is first written is the artifact path of no safe name.
pub proof fn lemma_transit_is_no_artifact(
    dir: Seq<u8>,
    uploading: Seq<u8>,
    invoked: Seq<u8>,
    extension: Seq<u8>,
)
    requires
        is_safe_name(invoked),
    ensures
        transit_path(dir, uploading, extension) != artifact_path(dir, invoked, extension),
{
    lemma_separators();
    let at = dir.len() + slash().len();
    assert(transit_path(dir, uploading, extension)[at as int] == 46u8);
    assert(artifact_path(dir, invoked, extension)[at as int] == invoked[0]);
}

} // verus!
