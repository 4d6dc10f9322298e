//! Taking in an upload: from the request body to the stored artifact.
//!
//! The body is decoded and the file in it becomes an artifact of the store.
//! The artifact is then written in two steps, so that its path never holds
//! half a file: the bytes go to a path of their own first, and take the
//! artifact's place by a rename.

use vstd::prelude::*;
use crate::bytes::copy_of;
use crate::error::{ErrorKind, ErrorModel};
use crate::multipart::{
    boundary_of_spec, decode_spec, first_file, any_form_data, file_name, is_form_data, PartModel,
    decode, select_file, parts_view,
};
use crate::store::{
    ArtifactStore, FunctionArtifact, name_of_file, artifact_path, transit_path, is_safe_name,
    lemma_transit_is_no_artifact, lemma_paths_differ,
};

verus! {

/// The name and the bytes of the function that an upload carries, or the
/// reason why it carries none.
pub open spec fn upload_of(extension: Seq<u8>, content_type: Seq<u8>, body: Seq<u8>) -> Result<
    (Seq<u8>, Seq<u8>),
    ErrorModel,
> {
    match boundary_of_spec(content_type) {
        None => Err(ErrorModel::MalformedContentType),
        Some(boundary) => {
            let parts = decode_spec(boundary, body);
            match first_file(parts, 0) {
                None => if any_form_data(parts) {
                    Err(ErrorModel::MissingFilename)
                } else {
                    Err(ErrorModel::NoFilePart)
                },
                Some(at) => match name_of_file(file_name(parts[at]).unwrap(), extension) {
                    None => Err(ErrorModel::InvalidFilename),
                    Some(name) => Ok((name, parts[at].body)),
                },
            }
        },
    }
}

/// Decodes an upload and makes the artifact that is to be stored.
///
/// The artifact is named by the stem of the uploaded file name and holds
/// the content of the file part byte for byte. Each way in which the body
/// can fail to carry a function gives its own error, as `upload_of` says.
pub fn receive_upload(store: &ArtifactStore, content_type: &[u8], body: &[u8]) -> (received:
    Result<FunctionArtifact, ErrorKind>)
    ensures
        match upload_of(store.extension@, content_type@, body@) {
            Ok((name, bytes)) => {
                &&& received.is_ok()
                &&& received.unwrap().name@ == name
                &&& received.unwrap().bytes@ == bytes
                &&& received.unwrap().belongs_to(store)
            },
            Err(kind) => received.is_err() && received.unwrap_err()@ == kind,
        },
{
    let parts = match decode(content_type, body) {
        Ok(parts) => parts,
        Err(kind) => {
            return Err(kind);
        },
    };
    match select_file(parts.as_slice()) {
        Ok(file) => store.artifact(file),
        Err(kind) => Err(kind),
    }
}

/// A body that does not carry a file is refused for what it lacks, and never
/// taken for an empty artifact: without a boundary the content type is
/// malformed; without a form-data part there is no file part; with such
/// parts, but none that names a file, the file name is missing.
pub proof fn lemma_decode_errors(extension: Seq<u8>, content_type: Seq<u8>, body: Seq<u8>)
    ensures
        boundary_of_spec(content_type).is_none() ==> upload_of(extension, content_type, body)
            == Err::<(Seq<u8>, Seq<u8>), ErrorModel>(ErrorModel::MalformedContentType),
        boundary_of_spec(content_type).is_some() && !any_form_data(
            decode_spec(boundary_of_spec(content_type).unwrap(), body),
        ) ==> upload_of(extension, content_type, body) == Err::<(Seq<u8>, Seq<u8>), ErrorModel>(
            ErrorModel::NoFilePart,
        ),
        boundary_of_spec(content_type).is_some() && any_form_data(
            decode_spec(boundary_of_spec(content_type).unwrap(), body),
        ) && (forall|i: int|
            0 <= i < decode_spec(boundary_of_spec(content_type).unwrap(), body).len()
                ==> file_name(
                #[trigger] decode_spec(boundary_of_spec(content_type).unwrap(), body)[i],
            ).is_none()) ==> upload_of(extension, content_type, body) == Err::<
            (Seq<u8>, Seq<u8>),
            ErrorModel,
        >(ErrorModel::MissingFilename),
{
    if boundary_of_spec(content_type).is_some() {
        let parts = decode_spec(boundary_of_spec(content_type).unwrap(), body);
        lemma_first_file(parts, 0);
        if !any_form_data(parts) {
            if first_file(parts, 0).is_some() {
                let at = first_file(parts, 0).unwrap();
                assert(is_form_data(parts[at]));
            }
        }
    }
}

/// What `first_file` returns is a part that names a file, and the first
/// such from `from` on; `None` means that no part from `from` on names one.
pub proof fn lemma_first_file(parts: Seq<PartModel>, from: int)
    requires
        0 <= from,
    ensures
        match first_file(parts, from) {
            Some(at) => {
                &&& from <= at < parts.len()
                &&& file_name(parts[at]).is_some()
                &&& forall|k: int| from <= k < at ==> file_name(#[trigger] parts[k]).is_none()
            },
            None => forall|k: int|
                from <= k < parts.len() ==> file_name(#[trigger] parts[k]).is_none(),
        },
    decreases parts.len() - from,
{
    if from < parts.len() && file_name(parts[from]).is_none() {
        lemma_first_file(parts, from + 1);
    }
}

/// How far the storing of an artifact has come.
#[derive(Clone, Copy, Debug, PartialEq, Eq, Structural)]
pub enum UploadState {
    /// The bytes are to be written to the transit path.
    Stage,
    /// The written file is to be renamed to the artifact's path.
    Commit,
    /// The artifact is in place.
    Stored,
    /// Writing or renaming failed; the artifact's path is as it was.
    Failed,
}

/// What the driver reports back while an artifact is stored.
#[derive(Clone, Copy, Debug, PartialEq, Eq, Structural)]
pub enum UploadEvent {
    /// Whether the bytes were written to the transit path.
    Written(bool),
    /// Whether the transit file was renamed to the artifact's path.
    Renamed(bool),
}

/// What the driver is to do next while an artifact is stored.
#[derive(Debug, PartialEq, Eq)]
pub enum UploadAction {
    /// Write the artifact's bytes to this path.
    Write(Vec<u8>),
    /// Rename the first path to the second, replacing what is there.
    Rename(Vec<u8>, Vec<u8>),
    /// Nothing is left to do; the artifact was stored, or the store failed.
    Finish(Result<(), ErrorKind>),
}

/// An upload action over plain bytes.
pub enum UploadActionModel {
    Write(Seq<u8>),
    Rename(Seq<u8>, Seq<u8>),
    Finish(Result<(), ErrorModel>),
}

impl View for UploadAction {
    type V = UploadActionModel;

    open spec fn view(&self) -> UploadActionModel {
        match self {
            UploadAction::Write(path) => UploadActionModel::Write(path@),
            UploadAction::Rename(from, to) => UploadActionModel::Rename(from@, to@),
            UploadAction::Finish(Ok(())) => UploadActionModel::Finish(Ok(())),
            UploadAction::Finish(Err(kind)) => UploadActionModel::Finish(Err(kind@)),
        }
    }
}

/// The state that follows `state` on `event`. A report that does not
/// answer the action of the state changes nothing.
pub open spec fn next_upload(state: UploadState, event: UploadEvent) -> UploadState {
    match (state, event) {
        (UploadState::Stage, UploadEvent::Written(true)) => UploadState::Commit,
        (UploadState::Stage, UploadEvent::Written(false)) => UploadState::Failed,
        (UploadState::Commit, UploadEvent::Renamed(true)) => UploadState::Stored,
        (UploadState::Commit, UploadEvent::Renamed(false)) => UploadState::Failed,
        _ => state,
    }
}

/// The action that belongs to a state, for an artifact that lies at
/// `target` and is written to `transit` first.
pub open spec fn upload_action_of(state: UploadState, transit: Seq<u8>, target: Seq<u8>)
    -> UploadActionModel {
    match state {
        UploadState::Stage => UploadActionModel::Write(transit),
        UploadState::Commit => UploadActionModel::Rename(transit, target),
        UploadState::Stored => UploadActionModel::Finish(Ok(())),
        UploadState::Failed => UploadActionModel::Finish(Err(ErrorModel::IoError)),
    }
}

/// The storing of one artifact under way.
#[derive(Debug, PartialEq, Eq)]
pub struct Uploader {
    pub artifact: FunctionArtifact,
    pub transit: Vec<u8>,
    pub state: UploadState,
}

impl Uploader {
    /// Begins to store `artifact` in `store`: its bytes are to be written
    /// to the transit path of its name.
    pub fn start(store: &ArtifactStore, artifact: FunctionArtifact) -> (uploader: Uploader)
        ensures
            uploader.artifact == artifact,
            uploader.transit@ == transit_path(
                store.upload_dir@,
                artifact.name@,
                store.extension@,
            ),
            uploader.state == UploadState::Stage,
    {
        let transit = store.temp_path(artifact.name.as_slice());
        Uploader { artifact, transit, state: UploadState::Stage }
    }

    /// The action that the driver is to perform now.
    pub fn action(&self) -> (action: UploadAction)
        ensures
            action@ == upload_action_of(self.state, self.transit@, self.artifact.storage_path@),
    {
        match self.state {
            UploadState::Stage => UploadAction::Write(copy_of(self.transit.as_slice())),
            UploadState::Commit => UploadAction::Rename(
                copy_of(self.transit.as_slice()),
                copy_of(self.artifact.storage_path.as_slice()),
            ),
            UploadState::Stored => UploadAction::Finish(Ok(())),
            UploadState::Failed => UploadAction::Finish(Err(ErrorKind::IoError)),
        }
    }

    /// Takes the driver's report and moves to the next state.
    pub fn step(self, event: UploadEvent) -> (next: Uploader)
        ensures
            next.artifact == self.artifact,
            next.transit == self.transit,
            next.state == next_upload(self.state, event),
    {
        let Uploader { artifact, transit, state } = self;
        let state = match state {
            UploadState::Stage => match event {
                UploadEvent::Written(true) => UploadState::Commit,
                UploadEvent::Written(false) => UploadState::Failed,
                _ => UploadState::Stage,
            },
            UploadState::Commit => match event {
                UploadEvent::Renamed(true) => UploadState::Stored,
                UploadEvent::Renamed(false) => UploadState::Failed,
                _ => UploadState::Commit,
            },
            UploadState::Stored => UploadState::Stored,
            UploadState::Failed => UploadState::Failed,
        };
        Uploader { artifact, transit, state }
    }
}

/// No invocation sees half an artifact. While the artifact of `uploading`
/// is stored, the only path that is written to is its transit path, which is
/// the artifact path of no function; the artifact's own path is touched by
/// the rename alone, and only after the write was reported as done.
pub proof fn lemma_artifact_is_never_torn(
    dir: Seq<u8>,
    extension: Seq<u8>,
    uploading: Seq<u8>,
    invoked: Seq<u8>,
    state: UploadState,
)
    requires
        is_safe_name(invoked),
    ensures
        ({
            let transit = transit_path(dir, uploading, extension);
            let target = artifact_path(dir, uploading, extension);
            let seen = artifact_path(dir, invoked, extension);
            &&& upload_action_of(state, transit, target) != UploadActionModel::Write(seen)
            &&& upload_action_of(state, transit, target) is Rename ==> state == UploadState::Commit
            &&& forall|before: UploadState, event: UploadEvent|
                before != UploadState::Commit && #[trigger] next_upload(before, event)
                    == UploadState::Commit ==> before == UploadState::Stage && event
                    == UploadEvent::Written(true)
        }),
{
    lemma_transit_is_no_artifact(dir, uploading, invoked, extension);
}

/// The files of the upload directory: what each path holds.
pub type Files = Map<Seq<u8>, Seq<u8>>;

/// The files after the driver has carried out `action` with success, for an
/// artifact of the given bytes. A write puts the bytes at its path; a rename
/// moves what the first path holds to the second; the last action touches
/// nothing.
pub open spec fn files_after(files: Files, action: UploadActionModel, bytes: Seq<u8>) -> Files {
    match action {
        UploadActionModel::Write(path) => files.insert(path, bytes),
        UploadActionModel::Rename(from, to) => if files.dom().contains(from) {
            files.insert(to, files[from]).remove(from)
        } else {
            files
        },
        UploadActionModel::Finish(_) => files,
    }
}

/// What an invocation finds at the artifact path of `name`.
pub open spec fn artifact_in(files: Files, dir: Seq<u8>, name: Seq<u8>, extension: Seq<u8>)
    -> Option<Seq<u8>> {
    if files.dom().contains(artifact_path(dir, name, extension)) {
        Some(files[artifact_path(dir, name, extension)])
    } else {
        None
    }
}

/// An upload replaces the artifact of its name, whole and at once, and
/// touches no other artifact. After the write, every function is found as
/// it was before. After the rename, the uploaded function is found with
/// exactly the uploaded bytes, whatever was there before, and every other
/// function is found as it was. So an invocation finds the old artifact or
/// the new one, and nothing in between.
pub proof fn lemma_upload_replaces_artifact(
    files: Files,
    dir: Seq<u8>,
    extension: Seq<u8>,
    uploading: Seq<u8>,
    bytes: Seq<u8>,
    invoked: Seq<u8>,
)
    requires
        is_safe_name(uploading),
        is_safe_name(invoked),
    ensures
        ({
            let transit = transit_path(dir, uploading, extension);
            let target = artifact_path(dir, uploading, extension);
            let written = files_after(
                files,
                upload_action_of(UploadState::Stage, transit, target),
                bytes,
            );
            let renamed = files_after(
                written,
                upload_action_of(UploadState::Commit, transit, target),
                bytes,
            );
            &&& artifact_in(written, dir, invoked, extension) == artifact_in(
                files,
                dir,
                invoked,
                extension,
            )
            &&& artifact_in(renamed, dir, uploading, extension) == Some(bytes)
            &&& invoked != uploading ==> artifact_in(renamed, dir, invoked, extension)
                == artifact_in(files, dir, invoked, extension)
        }),
{
    lemma_transit_is_no_artifact(dir, uploading, invoked, extension);
    lemma_transit_is_no_artifact(dir, uploading, uploading, extension);
    if invoked != uploading {
        if artifact_path(dir, invoked, extension) == artifact_path(dir, uploading, extension) {
            lemma_paths_differ(dir, invoked, uploading, extension);
        }
    }
}

} // verus!
