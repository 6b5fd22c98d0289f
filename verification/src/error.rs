//! What can go wrong while an object is reconciled.

use vstd::prelude::*;
use vstd::string::*;

verus! {

/// A field the patch computations need is missing from the observed object.
#[derive(Clone, Copy, Debug, PartialEq, Eq, Structural)]
pub enum StructuralError {
    /// The object has no spec.
    MissingSpec,
    /// The object's metadata has no name.
    MissingName,
    /// The spec has no rule list at all.
    MissingRules,
}

/// One of the two fields that identify an object.
#[derive(Clone, Copy, Debug, PartialEq, Eq, Structural)]
pub enum ObjectKey {
    Name,
    Namespace,
}

/// Why a reconciliation failed.
#[derive(Clone, Debug, PartialEq, Eq)]
pub enum Error {
    /// The merge write was refused or did not get through; holds the cause.
    PatchApplyFailed(String),
    /// The object lacks a field of its identity.
    MissingObjectKey(ObjectKey),
    /// The object lacks a field that a patch computation needs.
    Unexpected(StructuralError),
}

/// View of an [`Error`].
pub enum ErrorView {
    PatchApplyFailed(Seq<char>),
    MissingObjectKey(ObjectKey),
    Unexpected(StructuralError),
}

impl View for Error {
    type V = ErrorView;

    open spec fn view(&self) -> ErrorView {
        match self {
            Error::PatchApplyFailed(cause) => ErrorView::PatchApplyFailed(cause@),
            Error::MissingObjectKey(key) => ErrorView::MissingObjectKey(*key),
            Error::Unexpected(error) => ErrorView::Unexpected(*error),
        }
    }
}

impl StructuralError {
    /// The text of [`StructuralError::message`].
    pub open spec fn message_text(self) -> Seq<char> {
        match self {
            StructuralError::MissingSpec => "spec missing from ingress"@,
            StructuralError::MissingName => "name missing from ingress metadata"@,
            StructuralError::MissingRules => "rules missing from spec"@,
        }
    }

    /// A sentence that says which field is missing.
    pub fn message(&self) -> (text: String)
        ensures
            text@ == self.message_text(),
    {
        match self {
            StructuralError::MissingSpec => "spec missing from ingress".to_owned(),
            StructuralError::MissingName => "name missing from ingress metadata".to_owned(),
            StructuralError::MissingRules => "rules missing from spec".to_owned(),
        }
    }
}

impl ObjectKey {
    /// The text of [`ObjectKey::path`].
    pub open spec fn path_text(self) -> Seq<char> {
        match self {
            ObjectKey::Name => ".metadata.name"@,
            ObjectKey::Namespace => ".metadata.namespace"@,
        }
    }

    /// Where the field sits in the object.
    pub fn path(&self) -> (text: &'static str)
        ensures
            text@ == self.path_text(),
    {
        match self {
            ObjectKey::Name => ".metadata.name",
            ObjectKey::Namespace => ".metadata.namespace",
        }
    }
}

impl ErrorView {
    /// The text of [`Error::message`].
    pub open spec fn message_text(self) -> Seq<char> {
        match self {
            ErrorView::PatchApplyFailed(cause) => "Failed to patch Ingress: "@ + cause,
            ErrorView::MissingObjectKey(key) => "MissingObjectKey: "@ + key.path_text(),
            ErrorView::Unexpected(error) => error.message_text(),
        }
    }
}

impl Error {
    /// The error as one line of text.
    pub fn message(&self) -> (text: String)
        ensures
            text@ == self@.message_text(),
    {
        match self {
            Error::PatchApplyFailed(cause) => {
                "Failed to patch Ingress: ".to_owned().concat(cause.as_str())
            },
            Error::MissingObjectKey(key) => "MissingObjectKey: ".to_owned().concat(key.path()),
            Error::Unexpected(error) => error.message(),
        }
    }
}

} // verus!
