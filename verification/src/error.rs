use envy::Error as EnvyError;
use vstd::prelude::*;

verus! {

/// Declares rusoto's request-error wrapper so a value of it can be carried
/// through this crate. Relies on `rusoto_core::RusotoError` as an opaque
/// value only; nothing is assumed of its contents.
#[verifier::external_type_specification]
#[verifier::external_body]
#[verifier::reject_recursive_types(E)]
pub struct ExRusotoError<E>(rusoto_core::RusotoError<E>);

/// Declares the service error of the paged parameter fetch so a value of it
/// can be carried through this crate. Relies on
/// `rusoto_ssm::GetParametersByPathError` as an opaque value only.
#[verifier::external_type_specification]
#[verifier::external_body]
pub struct ExGetParametersByPathError(rusoto_ssm::GetParametersByPathError);

/// Declares the deserialization engine's error so a value of it can be
/// carried through this crate. Relies on `envy::Error` as an opaque value
/// only.
#[verifier::external_type_specification]
#[verifier::external_body]
pub struct ExEnvyError(EnvyError);

/// The error of the paged fetch: rusoto's wrapper around the service error.
pub type StoreError = rusoto_core::RusotoError<rusoto_ssm::GetParametersByPathError>;

/// Represents possible errors of a whole resolution: the two failure
/// domains — the remote fetch and the typed deserialization — unified
/// behind one type, each wrapping the underlying error unchanged.
#[derive(Debug)]
pub enum Error {
    /// Returned when a parameter store request fails.
    Store(StoreError),
    /// Returned when deserialization fails.
    Envy(EnvyError),
}

impl From<StoreError> for Error {
    fn from(err: StoreError) -> (r: Self) {
        Error::Store(err)
    }
}

impl vstd::std_specs::convert::FromSpecImpl<StoreError> for Error {
    open spec fn obeys_from_spec() -> bool {
        true
    }

    open spec fn from_spec(err: StoreError) -> Self {
        Error::Store(err)
    }
}

impl From<EnvyError> for Error {
    fn from(err: EnvyError) -> (r: Self) {
        Error::Envy(err)
    }
}

impl vstd::std_specs::convert::FromSpecImpl<EnvyError> for Error {
    open spec fn obeys_from_spec() -> bool {
        true
    }

    open spec fn from_spec(err: EnvyError) -> Self {
        Error::Envy(err)
    }
}

} // verus!
