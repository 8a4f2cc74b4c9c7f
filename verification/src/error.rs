//! All errors that can happen while a type is resolved.

use crate::cycle_detection::ValidationError;
use crate::types::push_str;
use vstd::prelude::*;

verus! {

/// Errors that happen while a type is resolved. `E` is the error type of the
/// registered constructors.
#[derive(Debug)]
#[non_exhaustive]
pub enum ResolveError<E> {
    /// Some of the required dependencies are missing.
    DependenciesMissing,
    /// The registered dependencies did not pass validation.
    Validation(ValidationError),
    /// No constructor is registered for the type.
    TypeMissing {
        /// The display name of the type that was to be resolved.
        typename: &'static str,
    },
    /// The constructor returned an error.
    Ctor(E),
    /// An error in the implementation happened.
    Impl(ImplErrors),
}

/// Implementation errors: they show a fault of the container, not of its
/// user.
#[derive(Debug, Clone, Copy, PartialEq, Eq, Structural)]
#[non_exhaustive]
pub enum ImplErrors {
    /// A constructor returned a value of another type than the one it was
    /// registered for.
    TypeMismatch,
}

impl<E> From<ValidationError> for ResolveError<E> {
    fn from(error: ValidationError) -> (wrapped: Self) {
        ResolveError::Validation(error)
    }
}

impl<E> vstd::std_specs::convert::FromSpecImpl<ValidationError> for ResolveError<E> {
    open spec fn obeys_from_spec() -> bool {
        true
    }

    open spec fn from_spec(error: ValidationError) -> Self {
        ResolveError::Validation(error)
    }
}

impl<E> From<ImplErrors> for ResolveError<E> {
    fn from(error: ImplErrors) -> (wrapped: Self) {
        ResolveError::Impl(error)
    }
}

impl<E> vstd::std_specs::convert::FromSpecImpl<ImplErrors> for ResolveError<E> {
    open spec fn obeys_from_spec() -> bool {
        true
    }

    open spec fn from_spec(error: ImplErrors) -> Self {
        ResolveError::Impl(error)
    }
}

impl ImplErrors {
    /// The message of the error.
    pub open spec fn text(self) -> Seq<char> {
        "type mismatch"@
    }

    /// The message of the error, for people to read.
    pub fn message(&self) -> (message: String)
        ensures
            message@ == self.text(),
    {
        "type mismatch".to_owned()
    }
}

/// `message` is the message of `error`, in which the error of a constructor
/// is written as `describe` writes it.
pub open spec fn is_message<E, F: Fn(&E) -> String>(
    error: ResolveError<E>,
    describe: F,
    message: Seq<char>,
) -> bool {
    match error {
        ResolveError::DependenciesMissing => message == "missing dependencies"@,
        ResolveError::Validation(inner) => message == "validation failed: "@ + inner.text(),
        ResolveError::TypeMissing { typename } => message == "type missing: "@ + typename@,
        ResolveError::Ctor(inner) => exists|written: String|
            call_ensures(describe, (&inner,), written) && message == "error from constructor: "@
                + written@,
        ResolveError::Impl(inner) => message == "implementation error: "@ + inner.text(),
    }
}

impl<E> ResolveError<E> {
    /// The message of the error, for people to read. The error of a
    /// constructor is written by `describe`.
    pub fn message<F: Fn(&E) -> String>(&self, describe: F) -> (message: String)
        requires
            forall|inner: &E| call_requires(describe, (inner,)),
        ensures
            is_message(*self, describe, message@),
    {
        match self {
            ResolveError::DependenciesMissing => "missing dependencies".to_owned(),
            ResolveError::Validation(inner) => {
                let mut text = "validation failed: ".to_owned();
                let written = inner.message();
                push_str(&mut text, written.as_str());
                text
            },
            ResolveError::TypeMissing { typename } => {
                let mut text = "type missing: ".to_owned();
                push_str(&mut text, typename);
                text
            },
            ResolveError::Ctor(inner) => {
                let mut text = "error from constructor: ".to_owned();
                let written = describe(inner);
                push_str(&mut text, written.as_str());
                text
            },
            ResolveError::Impl(inner) => {
                let mut text = "implementation error: ".to_owned();
                let written = inner.message();
                push_str(&mut text, written.as_str());
                text
            },
        }
    }

    /// Tells whether the error was returned by a registered constructor.
    pub fn is_ctor_err(&self) -> (is_ctor: bool)
        ensures
            is_ctor == (self is Ctor),
    {
        match self {
            ResolveError::Ctor(_) => true,
            _ => false,
        }
    }

    /// The error that a registered constructor returned, or `None` if the
    /// error has another origin.
    pub fn ctor_err(&self) -> (error: Option<&E>)
        ensures
            match error {
                Some(inner) => *self == ResolveError::Ctor(*inner),
                None => !(self is Ctor),
            },
    {
        match self {
            ResolveError::Ctor(error) => Some(error),
            _ => None,
        }
    }
}

} // verus!
