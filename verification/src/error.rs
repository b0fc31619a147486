//! The error taxonomy shared by every operation of the library.
//!
//! Each variant carries enough structure to be rendered at the outward
//! boundary as a machine-readable code and a human-readable message.

use vstd::prelude::*;
use vstd::string::StringExecFns;

verus! {

/// Why a requested transition or operation was refused authorization.
#[derive(Clone, Copy, Debug, PartialEq, Eq, Structural)]
pub enum ForbiddenReason {
    /// A join was requested on a room that is not public, without a standing
    /// invitation the target could accept.
    NotInvited,
    /// The delegated room-policy check refused the sender for this action.
    NotPermitted,
    /// The target is banned and may not change their own membership except to
    /// leave.
    Banned,
    /// The acted-on resource belongs to a user other than the authenticated
    /// sender.
    UserMismatch,
}

/// The failure modes an operation of this library can surface.
#[derive(Clone, Copy, Debug, PartialEq, Eq, Structural)]
pub enum ApiError {
    /// Authorization denial; not retryable without a different sender, target
    /// or invite state.
    Forbidden(ForbiddenReason),
    /// A duplicate publicly-initiated transition was suppressed; transient.
    RateLimited,
    /// A storage constraint or connectivity failure; retryable by the caller.
    StorageError,
    /// The queried membership, profile or filter does not exist.
    NotFound,
    /// No storage connection could be checked out for this request.
    PoolExhausted,
    /// The storage backend is unreachable; fatal to the current request.
    ConnectivityError,
}

/// The machine-readable code each error is rendered with on the wire.
pub open spec fn errcode_spec(e: ApiError) -> Seq<char> {
    match e {
        ApiError::Forbidden(_) => "M_FORBIDDEN"@,
        ApiError::RateLimited => "M_LIMIT_EXCEEDED"@,
        ApiError::StorageError => "M_UNKNOWN"@,
        ApiError::NotFound => "M_NOT_FOUND"@,
        ApiError::PoolExhausted => "M_UNKNOWN"@,
        ApiError::ConnectivityError => "M_UNKNOWN"@,
    }
}

/// The human-readable message of an authorization denial.
pub open spec fn reason_message_spec(r: ForbiddenReason) -> Seq<char> {
    match r {
        ForbiddenReason::NotInvited => "You are not invited to this room."@,
        ForbiddenReason::NotPermitted => "You are not allowed to perform this action in this room."@,
        ForbiddenReason::Banned => "You are banned from this room."@,
        ForbiddenReason::UserMismatch => "The given user_id does not correspond to the authenticated user"@,
    }
}

/// The human-readable message each error is rendered with on the wire.
pub open spec fn message_spec(e: ApiError) -> Seq<char> {
    match e {
        ApiError::Forbidden(r) => reason_message_spec(r),
        ApiError::RateLimited => "Try to set the membership again!"@,
        ApiError::StorageError => "The storage operation failed."@,
        ApiError::NotFound => "The requested resource was not found."@,
        ApiError::PoolExhausted => "No storage connection is available."@,
        ApiError::ConnectivityError => "The storage backend is unreachable."@,
    }
}

impl ApiError {
    /// The machine-readable error code of this error.
    pub fn errcode(&self) -> (r: &'static str)
        ensures
            r@ == errcode_spec(*self),
    {
        match self {
            ApiError::Forbidden(_) => "M_FORBIDDEN",
            ApiError::RateLimited => "M_LIMIT_EXCEEDED",
            ApiError::StorageError => "M_UNKNOWN",
            ApiError::NotFound => "M_NOT_FOUND",
            ApiError::PoolExhausted => "M_UNKNOWN",
            ApiError::ConnectivityError => "M_UNKNOWN",
        }
    }

    /// The human-readable message of this error.
    pub fn message(&self) -> (r: String)
        ensures
            r@ == message_spec(*self),
    {
        String::from_str(
            match self {
                ApiError::Forbidden(ForbiddenReason::NotInvited) => "You are not invited to this room.",
                ApiError::Forbidden(ForbiddenReason::NotPermitted) => "You are not allowed to perform this action in this room.",
                ApiError::Forbidden(ForbiddenReason::Banned) => "You are banned from this room.",
                ApiError::Forbidden(ForbiddenReason::UserMismatch) => "The given user_id does not correspond to the authenticated user",
                ApiError::RateLimited => "Try to set the membership again!",
                ApiError::StorageError => "The storage operation failed.",
                ApiError::NotFound => "The requested resource was not found.",
                ApiError::PoolExhausted => "No storage connection is available.",
                ApiError::ConnectivityError => "The storage backend is unreachable.",
            },
        )
    }
}

} // verus!
