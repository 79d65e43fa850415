//! Error taxonomy of the controller and the mapping from kernel status codes.
use vstd::prelude::*;

verus! {

/// `errno` for an operation that is not permitted.
pub const EPERM: i32 = 1;

/// `errno` for a missing file or directory.
pub const ENOENT: i32 = 2;

/// `errno` for an access check that failed.
pub const EACCES: i32 = 13;

/// `errno` for an entry that already exists.
pub const EEXIST: i32 = 17;

/// What went wrong with one controller operation.
#[derive(Debug, Clone, Copy, PartialEq, Eq, Structural)]
pub enum ControlError {
    /// A path, program or record is absent.
    NotFound,
    /// A directory of that path already exists.
    AlreadyExists,
    /// The kernel refused the operation for lack of privilege.
    PermissionDenied,
    /// The operation would duplicate or break an existing relation
    /// (an identical direct attachment, a node that still has children
    /// or live links).
    Conflict,
    /// A raw attach failed after the kernel may have registered the program:
    /// the program may stay attached with nothing left to detach it.
    PossibleLeak,
    /// The path is empty, relative, ends in a separator or holds a NUL byte.
    InvalidPath,
    /// Any other failure, with the status code the kernel reported.
    IoFailure(i32),
}

/// The error that a failed kernel call with status `code` stands for.
pub open spec fn error_of_code(code: i32) -> ControlError {
    if code == ENOENT {
        ControlError::NotFound
    } else if code == EEXIST {
        ControlError::AlreadyExists
    } else if code == EPERM || code == EACCES {
        ControlError::PermissionDenied
    } else {
        ControlError::IoFailure(code)
    }
}

/// Maps the status code of a failed filesystem or kernel call onto the
/// error taxonomy.
pub fn classify_errno(code: i32) -> (r: ControlError)
    ensures
        r == error_of_code(code),
{
    if code == ENOENT {
        ControlError::NotFound
    } else if code == EEXIST {
        ControlError::AlreadyExists
    } else if code == EPERM || code == EACCES {
        ControlError::PermissionDenied
    } else {
        ControlError::IoFailure(code)
    }
}

/// The error a failed raw attach with status `code` stands for: the kernel
/// reports an identical attachment already in place with `EEXIST`.
pub open spec fn direct_error_of_code(code: i32) -> ControlError {
    if code == EEXIST {
        ControlError::Conflict
    } else {
        error_of_code(code)
    }
}

/// Maps the status code of a failed raw attach onto the error taxonomy.
pub fn classify_attach_errno(code: i32) -> (r: ControlError)
    ensures
        r == direct_error_of_code(code),
{
    if code == EEXIST {
        ControlError::Conflict
    } else {
        classify_errno(code)
    }
}

} // verus!
