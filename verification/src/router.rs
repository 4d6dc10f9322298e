//! Dispatch of a request by its method and path.

use vstd::prelude::*;
use vstd::string::*;
use vstd::slice::slice_subrange;
use crate::bytes::{matches_at, find_from, find, starts_with_at, bytes_eq, copy_range};
use crate::error::ErrorKind;
use crate::store::{is_safe_name, check_name, slash};

verus! {

/// The method of a request, as far as the node tells methods apart.
#[derive(Clone, Copy, Debug, PartialEq, Eq, Structural)]
pub enum Method {
    Get,
    Post,
    Other,
}

/// A call of a stored function: its name and the one argument.
#[derive(Clone, Debug, PartialEq, Eq)]
pub struct InvocationRequest {
    pub function_name: Vec<u8>,
    pub argument: Vec<u8>,
}

/// Where a request goes.
#[derive(Clone, Debug, PartialEq, Eq)]
pub enum Route {
    /// Store the file that the body carries.
    Upload,
    /// Run a stored function.
    Invoke(InvocationRequest),
    /// Nothing answers to this method and path.
    NotFound,
}

/// The path that takes uploads.
pub open spec fn upload_path() -> Seq<u8> {
    "/upload".spec_bytes()
}

/// The prefix of every invocation path.
pub open spec fn invoke_prefix() -> Seq<u8> {
    "/invoke/".spec_bytes()
}

/// Whether a request is an upload.
pub open spec fn is_upload(method: Method, path: Seq<u8>) -> bool {
    method == Method::Post && path == upload_path()
}

/// Whether a request addresses the invocation handler.
pub open spec fn is_invoke(method: Method, path: Seq<u8>) -> bool {
    method == Method::Get && matches_at(path, invoke_prefix(), 0)
}

/// The name and the argument that an invocation path carries. The name is
/// what stands between the prefix and the next slash and must be a safe
/// name; the argument is all that follows that slash, and may be empty.
pub open spec fn invocation_of(path: Seq<u8>) -> Option<(Seq<u8>, Seq<u8>)> {
    let rest = path.subrange(invoke_prefix().len() as int, path.len() as int);
    if !matches_at(path, invoke_prefix(), 0) {
        None
    } else {
        match find_from(rest, slash(), 0) {
            Some(at) => if is_safe_name(rest.subrange(0, at)) {
                Some(
                    (rest.subrange(0, at), rest.subrange(at + slash().len(), rest.len() as int)),
                )
            } else {
                None
            },
            None => None,
        }
    }
}

/// Reads the name and the argument of an invocation path.
///
/// Fails with `InvalidPath` exactly when the path does not start with
/// `/invoke/`, no slash follows the name, or the name is not a safe name.
pub fn parse_invocation(path: &[u8]) -> (request: Result<InvocationRequest, ErrorKind>)
    ensures
        match invocation_of(path@) {
            Some((name, argument)) => {
                &&& request.is_ok()
                &&& request.unwrap().function_name@ == name
                &&& request.unwrap().argument@ == argument
            },
            None => request == Err::<InvocationRequest, ErrorKind>(ErrorKind::InvalidPath),
        },
{
    let prefix = "/invoke/".as_bytes();
    let sep = "/".as_bytes();
    if !starts_with_at(path, prefix, 0) {
        return Err(ErrorKind::InvalidPath);
    }
    let rest = slice_subrange(path, prefix.len(), path.len());
    match find(rest, sep, 0) {
        Some(at) => {
            let name = copy_range(rest, 0, at);
            if check_name(name.as_slice()) {
                let argument = copy_range(rest, at + sep.len(), rest.len());
                Ok(InvocationRequest { function_name: name, argument })
            } else {
                Err(ErrorKind::InvalidPath)
            }
        },
        None => Err(ErrorKind::InvalidPath),
    }
}

/// Decides where a request goes.
///
/// A `POST` of `/upload` is an upload. A `GET` of a path under `/invoke/`
/// is an invocation, and fails with `InvalidPath` where the path does not
/// give a name and an argument. Everything else is not found.
pub fn route(method: Method, path: &[u8]) -> (decision: Result<Route, ErrorKind>)
    ensures
        match decision {
            Ok(Route::Upload) => is_upload(method, path@),
            Ok(Route::Invoke(request)) => {
                &&& is_invoke(method, path@)
                &&& invocation_of(path@) == Some((request.function_name@, request.argument@))
            },
            Ok(Route::NotFound) => !is_upload(method, path@) && !is_invoke(method, path@),
            Err(e) => {
                &&& e == ErrorKind::InvalidPath
                &&& is_invoke(method, path@)
                &&& invocation_of(path@).is_none()
            },
        },
{
    match method {
        Method::Post => {
            if bytes_eq(path, "/upload".as_bytes()) {
                Ok(Route::Upload)
            } else {
                Ok(Route::NotFound)
            }
        },
        Method::Get => {
            if starts_with_at(path, "/invoke/".as_bytes(), 0) {
                match parse_invocation(path) {
                    Ok(request) => Ok(Route::Invoke(request)),
                    Err(_) => Err(ErrorKind::InvalidPath),
                }
            } else {
                Ok(Route::NotFound)
            }
        },
        Method::Other => Ok(Route::NotFound),
    }
}

} // verus!
