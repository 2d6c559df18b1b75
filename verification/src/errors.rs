//! The errors of the screen reader's core.

use crate::accessible::AccessiblePrimitive;
use vstd::prelude::*;

verus! {

#[verifier::external_type_specification]
#[verifier::external_body]
pub struct ExAtspiError(atspi_common::AtspiError);

/// What can go wrong in the cache.
#[derive(Debug)]
pub enum CacheError {
    /// The cache has been dropped from memory.
    NotAvailable,
    /// Item not found in cache.
    NoItem,
    /// It was not possible to get a lock on this item from the cache.
    NoLock,
    /// The range asked for in a call to a text-offset function has invalid bounds.
    TextBoundsError,
    /// The cache operation succeeded, but the cache is in an inconsistent state now: these
    /// keys need to be cached to make it consistent again.
    MoreData(Vec<AccessiblePrimitive>),
}

/// Why a bus name and object path could not be turned into an [`AccessiblePrimitive`].
#[derive(Clone, Debug, PartialEq, Eq, Structural)]
pub enum AccessiblePrimitiveConversionError {
    NoPathId,
    InvalidPath,
    NoFirstSectionOfSender,
    NoSecondSectionOfSender,
    NoSender,
    ErrSender,
}

/// The result of the screen reader's fallible operations.
pub type OdiliaResult<T> = Result<T, OdiliaError>;

/// Any error of the screen reader's core.
#[derive(Debug)]
pub enum OdiliaError {
    AtspiError(atspi_common::AtspiError),
    PrimitiveConversionError(AccessiblePrimitiveConversionError),
    NoAttributeError(String),
    Cache(CacheError),
    ConversionError(core::num::TryFromIntError),
    PoisoningError,
    Generic(String),
    Static(&'static str),
    ServiceNotFound(String),
    PredicateFailure(String),
}

impl From<&'static str> for OdiliaError {
    fn from(s: &'static str) -> (e: OdiliaError) {
        OdiliaError::Static(s)
    }
}

impl vstd::std_specs::convert::FromSpecImpl<&'static str> for OdiliaError {
    open spec fn obeys_from_spec() -> bool {
        true
    }

    open spec fn from_spec(s: &'static str) -> OdiliaError {
        OdiliaError::Static(s)
    }
}

impl From<String> for OdiliaError {
    fn from(s: String) -> (e: OdiliaError) {
        OdiliaError::Generic(s)
    }
}

impl vstd::std_specs::convert::FromSpecImpl<String> for OdiliaError {
    open spec fn obeys_from_spec() -> bool {
        true
    }

    open spec fn from_spec(s: String) -> OdiliaError {
        OdiliaError::Generic(s)
    }
}

impl From<CacheError> for OdiliaError {
    fn from(e: CacheError) -> (r: OdiliaError) {
        OdiliaError::Cache(e)
    }
}

impl vstd::std_specs::convert::FromSpecImpl<CacheError> for OdiliaError {
    open spec fn obeys_from_spec() -> bool {
        true
    }

    open spec fn from_spec(e: CacheError) -> OdiliaError {
        OdiliaError::Cache(e)
    }
}

impl From<AccessiblePrimitiveConversionError> for OdiliaError {
    fn from(e: AccessiblePrimitiveConversionError) -> (r: OdiliaError) {
        OdiliaError::PrimitiveConversionError(e)
    }
}

impl vstd::std_specs::convert::FromSpecImpl<AccessiblePrimitiveConversionError> for OdiliaError {
    open spec fn obeys_from_spec() -> bool {
        true
    }

    open spec fn from_spec(e: AccessiblePrimitiveConversionError) -> OdiliaError {
        OdiliaError::PrimitiveConversionError(e)
    }
}

impl From<atspi_common::AtspiError> for OdiliaError {
    fn from(e: atspi_common::AtspiError) -> (r: OdiliaError) {
        OdiliaError::AtspiError(e)
    }
}

impl vstd::std_specs::convert::FromSpecImpl<atspi_common::AtspiError> for OdiliaError {
    open spec fn obeys_from_spec() -> bool {
        true
    }

    open spec fn from_spec(e: atspi_common::AtspiError) -> OdiliaError {
        OdiliaError::AtspiError(e)
    }
}

} // verus!
