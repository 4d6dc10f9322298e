//! What the node answers: a status and a short text.

use vstd::prelude::*;
use vstd::string::*;
use crate::bytes::{copy_of, append_bytes};
use crate::error::{ErrorKind, ErrorModel};
use crate::invoker::{InvocationResult, ResultModel};

verus! {

/// An answer to a request.
#[derive(Clone, Debug, PartialEq, Eq)]
pub struct Response {
    pub status: u16,
    pub body: Vec<u8>,
}

/// An answer over plain bytes.
pub struct ResponseModel {
    pub status: u16,
    pub body: Seq<u8>,
}

impl View for Response {
    type V = ResponseModel;

    open spec fn view(&self) -> ResponseModel {
        ResponseModel { status: self.status, body: self.body@ }
    }
}

/// What precedes the output of a function in the answer.
pub open spec fn returned_prefix() -> Seq<u8> {
    "Function returned: ".spec_bytes()
}

/// What precedes the message of a function that reported a failure.
pub open spec fn failed_prefix() -> Seq<u8> {
    "Invocation failed: ".spec_bytes()
}

/// The answer to an upload that was stored.
pub open spec fn uploaded() -> ResponseModel {
    ResponseModel { status: 200, body: "File uploaded successfully".spec_bytes() }
}

/// The answer to a request that nothing serves.
pub open spec fn not_found() -> ResponseModel {
    ResponseModel { status: 404, body: "Not found".spec_bytes() }
}

/// The answer to an error. A body that cannot be decoded is an invalid
/// request, whatever is wrong with it; a failure that the function itself
/// reported carries the function's message; trouble in the store or the
/// loader is the node's own and gives no detail.
pub open spec fn error_response(kind: ErrorModel) -> ResponseModel {
    match kind {
        ErrorModel::MalformedContentType
        | ErrorModel::NoFilePart
        | ErrorModel::MissingFilename
        | ErrorModel::InvalidFilename => ResponseModel {
            status: 400,
            body: "Invalid request".spec_bytes(),
        },
        ErrorModel::InvalidPath => ResponseModel {
            status: 400,
            body: "Invalid path".spec_bytes(),
        },
        ErrorModel::ArtifactNotFound => ResponseModel {
            status: 404,
            body: "Library not found".spec_bytes(),
        },
        ErrorModel::InvocationFailure(message) => ResponseModel {
            status: 422,
            body: failed_prefix() + message,
        },
        ErrorModel::IoError => ResponseModel {
            status: 500,
            body: "Storage failure".spec_bytes(),
        },
        ErrorModel::LoadError => ResponseModel {
            status: 500,
            body: "Failed to load library".spec_bytes(),
        },
        ErrorModel::SymbolNotFound => ResponseModel {
            status: 500,
            body: "Failed to get symbol".spec_bytes(),
        },
    }
}

/// The answer to an invocation that has ended.
pub open spec fn result_response(result: ResultModel) -> ResponseModel {
    match result {
        ResultModel::Success(output) => ResponseModel {
            status: 200,
            body: returned_prefix() + output,
        },
        ResultModel::Failure(kind) => error_response(kind),
    }
}

/// An answer with a fixed text.
fn fixed(status: u16, text: &str) -> (response: Response)
    ensures
        response@ == (ResponseModel { status, body: text.spec_bytes() }),
{
    Response { status, body: copy_of(text.as_bytes()) }
}

/// An answer made of a fixed text and what follows it.
fn prefixed(status: u16, text: &str, rest: &[u8]) -> (response: Response)
    ensures
        response@ == (ResponseModel { status, body: text.spec_bytes() + rest@ }),
{
    let mut body = copy_of(text.as_bytes());
    append_bytes(&mut body, rest);
    Response { status, body }
}

/// The answer to an upload that was stored.
pub fn respond_uploaded() -> (response: Response)
    ensures
        response@ == uploaded(),
{
    fixed(200, "File uploaded successfully")
}

/// The answer to a request that nothing serves.
pub fn respond_not_found() -> (response: Response)
    ensures
        response@ == not_found(),
{
    fixed(404, "Not found")
}

/// The answer to an error.
pub fn respond_error(kind: &ErrorKind) -> (response: Response)
    ensures
        response@ == error_response(kind@),
{
    match kind {
        ErrorKind::MalformedContentType => fixed(400, "Invalid request"),
        ErrorKind::NoFilePart => fixed(400, "Invalid request"),
        ErrorKind::MissingFilename => fixed(400, "Invalid request"),
        ErrorKind::InvalidFilename => fixed(400, "Invalid request"),
        ErrorKind::InvalidPath => fixed(400, "Invalid path"),
        ErrorKind::ArtifactNotFound => fixed(404, "Library not found"),
        ErrorKind::InvocationFailure(message) => prefixed(
            422,
            "Invocation failed: ",
            message.as_slice(),
        ),
        ErrorKind::IoError => fixed(500, "Storage failure"),
        ErrorKind::LoadError => fixed(500, "Failed to load library"),
        ErrorKind::SymbolNotFound => fixed(500, "Failed to get symbol"),
    }
}

/// The answer to an invocation that has ended.
pub fn respond_result(result: &InvocationResult) -> (response: Response)
    ensures
        response@ == result_response(result@),
{
    match result {
        InvocationResult::Success(output) => prefixed(
            200,
            "Function returned: ",
            output.as_slice(),
        ),
        InvocationResult::Failure(kind) => respond_error(kind),
    }
}

/// No failure of an invocation is answered as a success, and a failure that
/// the function itself reported is never answered as a fault of the node.
pub proof fn lemma_failures_are_told_apart(kind: ErrorModel)
    ensures
        error_response(kind).status != 200,
        kind is InvocationFailure ==> error_response(kind).status != 500,
        error_response(kind).status == 404 <==> kind is ArtifactNotFound,
{
}

} // verus!
