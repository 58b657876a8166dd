//! The shared error taxonomy of the capability contract.
//!
//! Every backend adapter classifies its failures into one of these enums,
//! one per operation family.  Each carries a backend-specific custom variant
//! so no adapter detail is ever lost.  The classifiers here map an HTTP
//! status to the right variant the way the adapters do: 404 means missing,
//! 401 or 403 means unauthorized, anything else is passed through.

use vstd::prelude::*;

verus! {

/// Failure of zone retrieval or listing.
#[derive(Debug, Clone, PartialEq, Eq)]
pub enum RetrieveZoneError<E> {
    /// The zone does not exist or is not visible.
    NotFound,
    /// The credentials do not allow the operation.
    Unauthorized,
    /// A backend-specific failure, preserved whole.
    Custom(E),
}

/// Failure of record retrieval or listing.
#[derive(Debug, Clone, PartialEq, Eq)]
pub enum RetrieveRecordError<E> {
    /// The record does not exist.
    NotFound,
    /// The credentials do not allow the operation.
    Unauthorized,
    /// A backend-specific failure, preserved whole.
    Custom(E),
}

/// Failure of zone creation.
#[derive(Debug, Clone, PartialEq, Eq)]
pub enum CreateZoneError<E> {
    /// The domain name was rejected.
    InvalidDomainName,
    /// The credentials do not allow the operation.
    Unauthorized,
    /// A backend-specific failure, preserved whole.
    Custom(E),
}

/// Failure of record creation.
#[derive(Debug, Clone, PartialEq, Eq)]
pub enum CreateRecordError<E> {
    /// The backend does not support this record type.
    UnsupportedType,
    /// The record was rejected as malformed.
    InvalidRecord,
    /// The credentials do not allow the operation.
    Unauthorized,
    /// A backend-specific failure, preserved whole.
    Custom(E),
}

/// Failure of zone deletion.
#[derive(Debug, Clone, PartialEq, Eq)]
pub enum DeleteZoneError<E> {
    /// The zone does not exist.
    NotFound,
    /// The credentials do not allow the operation.
    Unauthorized,
    /// A backend-specific failure, preserved whole.
    Custom(E),
}

/// Failure of record deletion.
#[derive(Debug, Clone, PartialEq, Eq)]
pub enum DeleteRecordError<E> {
    /// The record does not exist.
    NotFound,
    /// The credentials do not allow the operation.
    Unauthorized,
    /// A backend-specific failure, preserved whole.
    Custom(E),
}

/// An HTTP status that means the credentials were refused.
pub open spec fn status_unauthorized(status: u16) -> bool {
    status == 401 || status == 403
}

/// Classifies an HTTP status for zone retrieval.
pub fn retrieve_zone_error_from_status<E>(status: u16, err: E) -> (r: RetrieveZoneError<E>)
    ensures
        r == if status == 404 {
            RetrieveZoneError::<E>::NotFound
        } else if status_unauthorized(status) {
            RetrieveZoneError::<E>::Unauthorized
        } else {
            RetrieveZoneError::Custom(err)
        },
{
    if status == 404 {
        RetrieveZoneError::NotFound
    } else if status == 401 || status == 403 {
        RetrieveZoneError::Unauthorized
    } else {
        RetrieveZoneError::Custom(err)
    }
}

/// Classifies an HTTP status for record retrieval.
pub fn retrieve_record_error_from_status<E>(status: u16, err: E) -> (r: RetrieveRecordError<E>)
    ensures
        r == if status == 404 {
            RetrieveRecordError::<E>::NotFound
        } else if status_unauthorized(status) {
            RetrieveRecordError::<E>::Unauthorized
        } else {
            RetrieveRecordError::Custom(err)
        },
{
    if status == 404 {
        RetrieveRecordError::NotFound
    } else if status == 401 || status == 403 {
        RetrieveRecordError::Unauthorized
    } else {
        RetrieveRecordError::Custom(err)
    }
}

/// Classifies an HTTP status for zone creation: an unprocessable domain is
/// reported as an invalid name.
pub fn create_zone_error_from_status<E>(status: u16, err: E) -> (r: CreateZoneError<E>)
    ensures
        r == if status_unauthorized(status) {
            CreateZoneError::<E>::Unauthorized
        } else if status == 422 {
            CreateZoneError::<E>::InvalidDomainName
        } else {
            CreateZoneError::Custom(err)
        },
{
    if status == 401 || status == 403 {
        CreateZoneError::Unauthorized
    } else if status == 422 {
        CreateZoneError::InvalidDomainName
    } else {
        CreateZoneError::Custom(err)
    }
}

/// Classifies an HTTP status for record creation: an unprocessable record
/// is reported as invalid.
pub fn create_record_error_from_status<E>(status: u16, err: E) -> (r: CreateRecordError<E>)
    ensures
        r == if status_unauthorized(status) {
            CreateRecordError::<E>::Unauthorized
        } else if status == 422 {
            CreateRecordError::<E>::InvalidRecord
        } else {
            CreateRecordError::Custom(err)
        },
{
    if status == 401 || status == 403 {
        CreateRecordError::Unauthorized
    } else if status == 422 {
        CreateRecordError::InvalidRecord
    } else {
        CreateRecordError::Custom(err)
    }
}

/// Classifies an HTTP status for zone deletion.
pub fn delete_zone_error_from_status<E>(status: u16, err: E) -> (r: DeleteZoneError<E>)
    ensures
        r == if status == 404 {
            DeleteZoneError::<E>::NotFound
        } else if status_unauthorized(status) {
            DeleteZoneError::<E>::Unauthorized
        } else {
            DeleteZoneError::Custom(err)
        },
{
    if status == 404 {
        DeleteZoneError::NotFound
    } else if status == 401 || status == 403 {
        DeleteZoneError::Unauthorized
    } else {
        DeleteZoneError::Custom(err)
    }
}

/// Classifies an HTTP status for record deletion.
pub fn delete_record_error_from_status<E>(status: u16, err: E) -> (r: DeleteRecordError<E>)
    ensures
        r == if status == 404 {
            DeleteRecordError::<E>::NotFound
        } else if status_unauthorized(status) {
            DeleteRecordError::<E>::Unauthorized
        } else {
            DeleteRecordError::Custom(err)
        },
{
    if status == 404 {
        DeleteRecordError::NotFound
    } else if status == 401 || status == 403 {
        DeleteRecordError::Unauthorized
    } else {
        DeleteRecordError::Custom(err)
    }
}

} // verus!
