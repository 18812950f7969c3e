//! The library's closed error taxonomy.

use vstd::prelude::*;
use crate::text::{decimal_string, decimal_text};

verus! {

/// Every failure the library reports, each with its structured context.
#[derive(Clone, Debug)]
#[allow(inconsistent_fields)]
pub enum FakError {
    /// A field breaks its contract.
    Validation { field: String, message: String },
    /// No artifact is stored under this identifier.
    ArtifactNotFound { artifact_id: String },
    /// A recomputed identifier differs from the expected one.
    IntegrityFailure { artifact_id: String, expected: String, actual: String },
    /// The invariant description language rejected its input.
    ParseError { source: String, message: String },
    /// An invariant could not be established.
    VerificationFailure { invariant_name: String, reason: String },
    /// A count ceiling was exceeded.
    ResourceLimit { resource: String, limit: usize, actual: usize },
    /// An operation ran past its time budget, in milliseconds.
    Timeout { operation: String, limit_millis: u64 },
    /// A value could not be serialized.
    Serialization { message: String },
    /// A name that is no proof type.
    UnknownProofType { value: String },
    /// A bundle failed re-verification.
    BundleVerificationFailed { bundle_id: String, reason: String },
    /// A shared lock was poisoned by a panic while held.
    LockPoisoned { resource: String },
}

/// Result of the library's fallible operations.
pub type FakResult<T> = Result<T, FakError>;

/// The content of a `FakError`, with its text as character sequences.
#[allow(inconsistent_fields)]
pub enum ErrorView {
    Validation { field: Seq<char>, message: Seq<char> },
    ArtifactNotFound { artifact_id: Seq<char> },
    IntegrityFailure { artifact_id: Seq<char>, expected: Seq<char>, actual: Seq<char> },
    ParseError { source: Seq<char>, message: Seq<char> },
    VerificationFailure { invariant_name: Seq<char>, reason: Seq<char> },
    ResourceLimit { resource: Seq<char>, limit: usize, actual: usize },
    Timeout { operation: Seq<char>, limit_millis: u64 },
    Serialization { message: Seq<char> },
    UnknownProofType { value: Seq<char> },
    BundleVerificationFailed { bundle_id: Seq<char>, reason: Seq<char> },
    LockPoisoned { resource: Seq<char> },
}

impl View for FakError {
    type V = ErrorView;

    open spec fn view(&self) -> ErrorView {
        match self {
            FakError::Validation { field, message } => ErrorView::Validation {
                field: field@,
                message: message@,
            },
            FakError::ArtifactNotFound { artifact_id } => ErrorView::ArtifactNotFound {
                artifact_id: artifact_id@,
            },
            FakError::IntegrityFailure { artifact_id, expected, actual } =>
                ErrorView::IntegrityFailure {
                artifact_id: artifact_id@,
                expected: expected@,
                actual: actual@,
            },
            FakError::ParseError { source, message } => ErrorView::ParseError {
                source: source@,
                message: message@,
            },
            FakError::VerificationFailure { invariant_name, reason } =>
                ErrorView::VerificationFailure { invariant_name: invariant_name@, reason: reason@ },
            FakError::ResourceLimit { resource, limit, actual } => ErrorView::ResourceLimit {
                resource: resource@,
                limit: *limit,
                actual: *actual,
            },
            FakError::Timeout { operation, limit_millis } => ErrorView::Timeout {
                operation: operation@,
                limit_millis: *limit_millis,
            },
            FakError::Serialization { message } => ErrorView::Serialization { message: message@ },
            FakError::UnknownProofType { value } => ErrorView::UnknownProofType { value: value@ },
            FakError::BundleVerificationFailed { bundle_id, reason } =>
                ErrorView::BundleVerificationFailed { bundle_id: bundle_id@, reason: reason@ },
            FakError::LockPoisoned { resource } => ErrorView::LockPoisoned { resource: resource@ },
        }
    }
}

impl ErrorView {
    /// The human-readable description of the error.
    pub open spec fn text(self) -> Seq<char> {
        match self {
            ErrorView::Validation { field, message } => "validation error on '"@ + field + "': "@
                + message,
            ErrorView::ArtifactNotFound { artifact_id } => "artifact '"@ + artifact_id
                + "' not found"@,
            ErrorView::IntegrityFailure { artifact_id, expected, actual } =>
                "integrity check failed for '"@ + artifact_id + "': expected '"@ + expected
                + "', got '"@ + actual + "'"@,
            ErrorView::ParseError { source, message } => "parse error in '"@ + source + "': "@
                + message,
            ErrorView::VerificationFailure { invariant_name, reason } =>
                "verification failed for '"@ + invariant_name + "': "@ + reason,
            ErrorView::ResourceLimit { resource, limit, actual } => resource + " limit exceeded: "@
                + decimal_text(actual as nat) + " > "@ + decimal_text(limit as nat),
            ErrorView::Timeout { operation, limit_millis } => operation + " timed out after "@
                + decimal_text(limit_millis as nat) + "ms"@,
            ErrorView::Serialization { message } => "serialization error: "@ + message,
            ErrorView::UnknownProofType { value } => "unknown proof type: '"@ + value + "'"@,
            ErrorView::BundleVerificationFailed { bundle_id, reason } => "bundle '"@ + bundle_id
                + "' verification failed: "@ + reason,
            ErrorView::LockPoisoned { resource } => "lock poisoned for resource: "@ + resource,
        }
    }
}

impl FakError {
    /// Describes the error in one line of text.
    pub fn message(&self) -> (r: String)
        ensures
            r@ == self@.text(),
    {
        match self {
            FakError::Validation { field, message } => {
                let mut s = String::from_str("validation error on '");
                s.append(field.as_str());
                s.append("': ");
                s.append(message.as_str());
                s
            },
            FakError::ArtifactNotFound { artifact_id } => {
                let mut s = String::from_str("artifact '");
                s.append(artifact_id.as_str());
                s.append("' not found");
                s
            },
            FakError::IntegrityFailure { artifact_id, expected, actual } => {
                let mut s = String::from_str("integrity check failed for '");
                s.append(artifact_id.as_str());
                s.append("': expected '");
                s.append(expected.as_str());
                s.append("', got '");
                s.append(actual.as_str());
                s.append("'");
                s
            },
            FakError::ParseError { source, message } => {
                let mut s = String::from_str("parse error in '");
                s.append(source.as_str());
                s.append("': ");
                s.append(message.as_str());
                s
            },
            FakError::VerificationFailure { invariant_name, reason } => {
                let mut s = String::from_str("verification failed for '");
                s.append(invariant_name.as_str());
                s.append("': ");
                s.append(reason.as_str());
                s
            },
            FakError::ResourceLimit { resource, limit, actual } => {
                let mut s = resource.clone();
                s.append(" limit exceeded: ");
                let a = decimal_string(*actual as u64);
                s.append(a.as_str());
                s.append(" > ");
                let l = decimal_string(*limit as u64);
                s.append(l.as_str());
                s
            },
            FakError::Timeout { operation, limit_millis } => {
                let mut s = operation.clone();
                s.append(" timed out after ");
                let l = decimal_string(*limit_millis);
                s.append(l.as_str());
                s.append("ms");
                s
            },
            FakError::Serialization { message } => {
                let mut s = String::from_str("serialization error: ");
                s.append(message.as_str());
                s
            },
            FakError::UnknownProofType { value } => {
                let mut s = String::from_str("unknown proof type: '");
                s.append(value.as_str());
                s.append("'");
                s
            },
            FakError::BundleVerificationFailed { bundle_id, reason } => {
                let mut s = String::from_str("bundle '");
                s.append(bundle_id.as_str());
                s.append("' verification failed: ");
                s.append(reason.as_str());
                s
            },
            FakError::LockPoisoned { resource } => {
                let mut s = String::from_str("lock poisoned for resource: ");
                s.append(resource.as_str());
                s
            },
        }
    }
}

/// `r` is the outcome that `fault` describes: success when there is none,
/// otherwise exactly that error.
pub open spec fn outcome_is<T>(r: FakResult<T>, fault: Option<ErrorView>) -> bool {
    match fault {
        None => r is Ok,
        Some(e) => r is Err && r->Err_0@ == e,
    }
}

/// A validation error on `field`.
pub fn validation_error(field: &str, message: &str) -> (e: FakError)
    ensures
        e@ == (ErrorView::Validation { field: field@, message: message@ }),
{
    FakError::Validation { field: String::from_str(field), message: String::from_str(message) }
}

} // verus!
