//! Errors of the pipeline, each located at a position of the input.
use vstd::prelude::*;

verus! {

/// The four classes of error.
#[derive(Clone, Copy, Debug, PartialEq, Eq, Structural)]
pub enum ErrorKind {
    /// Malformed input.
    Grammar,
    /// A control marker repeated on one declaration.
    Duplicate,
    /// Both the `string` and the `int` marker on one declaration.
    Conflicting,
    /// A requested capability needs a family that is switched off.
    Unsupported,
}

/// An error, with the position (token index) at which it is reported.
#[derive(Clone, Copy, Debug, PartialEq, Eq, Structural)]
pub enum MicrotypeError {
    /// The input does not follow the grammar at this token.
    Grammar { span: usize },
    /// A `secret` marker whose argument is neither empty nor `serialize`.
    MalformedSecret { span: usize },
    /// A second `secret` marker.
    DuplicateSecret { span: usize },
    /// A second `string` marker.
    DuplicateString { span: usize },
    /// A second `int` marker.
    DuplicateInt { span: usize },
    /// Both kind markers; located at the `int` marker.
    ConflictingKinds { span: usize },
    /// A second column-mapping marker.
    DuplicateColumn { span: usize },
    /// A column-mapping marker whose argument is not `name = Type`.
    MalformedColumn { span: usize },
    /// `secret(serialize)` while serialization support is off.
    SerializeWithoutSerde { span: usize },
    /// A `secret` marker while secret support is off.
    SecretFeatureMissing { span: usize },
    /// An `int` marker on a secret wrapper, which has no integer capability set.
    IntSecret { span: usize },
}

/// The class of an error.
pub open spec fn kind_of(e: MicrotypeError) -> ErrorKind {
    match e {
        MicrotypeError::Grammar { .. } => ErrorKind::Grammar,
        MicrotypeError::MalformedSecret { .. } => ErrorKind::Grammar,
        MicrotypeError::MalformedColumn { .. } => ErrorKind::Grammar,
        MicrotypeError::DuplicateSecret { .. } => ErrorKind::Duplicate,
        MicrotypeError::DuplicateString { .. } => ErrorKind::Duplicate,
        MicrotypeError::DuplicateInt { .. } => ErrorKind::Duplicate,
        MicrotypeError::DuplicateColumn { .. } => ErrorKind::Duplicate,
        MicrotypeError::ConflictingKinds { .. } => ErrorKind::Conflicting,
        MicrotypeError::SerializeWithoutSerde { .. } => ErrorKind::Unsupported,
        MicrotypeError::SecretFeatureMissing { .. } => ErrorKind::Unsupported,
        MicrotypeError::IntSecret { .. } => ErrorKind::Unsupported,
    }
}

impl MicrotypeError {
    /// The class of this error.
    pub fn kind(&self) -> (r: ErrorKind)
        ensures
            r == kind_of(*self),
    {
        match self {
            MicrotypeError::Grammar { .. } => ErrorKind::Grammar,
            MicrotypeError::MalformedSecret { .. } => ErrorKind::Grammar,
            MicrotypeError::MalformedColumn { .. } => ErrorKind::Grammar,
            MicrotypeError::DuplicateSecret { .. } => ErrorKind::Duplicate,
            MicrotypeError::DuplicateString { .. } => ErrorKind::Duplicate,
            MicrotypeError::DuplicateInt { .. } => ErrorKind::Duplicate,
            MicrotypeError::DuplicateColumn { .. } => ErrorKind::Duplicate,
            MicrotypeError::ConflictingKinds { .. } => ErrorKind::Conflicting,
            MicrotypeError::SerializeWithoutSerde { .. } => ErrorKind::Unsupported,
            MicrotypeError::SecretFeatureMissing { .. } => ErrorKind::Unsupported,
            MicrotypeError::IntSecret { .. } => ErrorKind::Unsupported,
        }
    }

    /// The position at which the error is reported.
    pub fn span(&self) -> (r: usize)
        ensures
            r == span_of(*self),
    {
        match self {
            MicrotypeError::Grammar { span } => *span,
            MicrotypeError::MalformedSecret { span } => *span,
            MicrotypeError::DuplicateSecret { span } => *span,
            MicrotypeError::DuplicateString { span } => *span,
            MicrotypeError::DuplicateInt { span } => *span,
            MicrotypeError::ConflictingKinds { span } => *span,
            MicrotypeError::DuplicateColumn { span } => *span,
            MicrotypeError::MalformedColumn { span } => *span,
            MicrotypeError::SerializeWithoutSerde { span } => *span,
            MicrotypeError::SecretFeatureMissing { span } => *span,
            MicrotypeError::IntSecret { span } => *span,
        }
    }

    /// The diagnostic text of this error.
    pub fn message(&self) -> (r: String)
        ensures
            r@ == message_of(*self),
    {
        let s = match self {
            MicrotypeError::Grammar { .. } => "unexpected token",
            MicrotypeError::MalformedSecret { .. } => "expected either `#[secret]` or `#[secret(serialize)]`",
            MicrotypeError::DuplicateSecret { .. } => "duplicate `secret` attribute found",
            MicrotypeError::DuplicateString { .. } => "duplicate `string` attribute found",
            MicrotypeError::DuplicateInt { .. } => "duplicate `int` attribute found",
            MicrotypeError::ConflictingKinds { .. } => "only one of `#[int]`, `#[string]` allowed",
            MicrotypeError::DuplicateColumn { .. } => "duplicate `diesel` attribute found",
            MicrotypeError::MalformedColumn { .. } => "expected `#[diesel(sql_type = Type)]`",
            MicrotypeError::SerializeWithoutSerde { .. } => "`#[secret(serialize)]` has no effect unless the `serde` feature is enabled",
            MicrotypeError::SecretFeatureMissing { .. } => "`#[secret]` is only supported when the `secret` feature is enabled",
            MicrotypeError::IntSecret { .. } => "`#[int]` is not supported on secret microtypes",
        };
        String::from_str(s)
    }
}

/// The diagnostic text of an error.
pub open spec fn message_of(e: MicrotypeError) -> Seq<char> {
    match e {
        MicrotypeError::Grammar { .. } => "unexpected token"@,
        MicrotypeError::MalformedSecret { .. } => "expected either `#[secret]` or `#[secret(serialize)]`"@,
        MicrotypeError::DuplicateSecret { .. } => "duplicate `secret` attribute found"@,
        MicrotypeError::DuplicateString { .. } => "duplicate `string` attribute found"@,
        MicrotypeError::DuplicateInt { .. } => "duplicate `int` attribute found"@,
        MicrotypeError::ConflictingKinds { .. } => "only one of `#[int]`, `#[string]` allowed"@,
        MicrotypeError::DuplicateColumn { .. } => "duplicate `diesel` attribute found"@,
        MicrotypeError::MalformedColumn { .. } => "expected `#[diesel(sql_type = Type)]`"@,
        MicrotypeError::SerializeWithoutSerde { .. } => "`#[secret(serialize)]` has no effect unless the `serde` feature is enabled"@,
        MicrotypeError::SecretFeatureMissing { .. } => "`#[secret]` is only supported when the `secret` feature is enabled"@,
        MicrotypeError::IntSecret { .. } => "`#[int]` is not supported on secret microtypes"@,
    }
}

/// The position at which an error is reported.
pub open spec fn span_of(e: MicrotypeError) -> usize {
    match e {
        MicrotypeError::Grammar { span } => span,
        MicrotypeError::MalformedSecret { span } => span,
        MicrotypeError::DuplicateSecret { span } => span,
        MicrotypeError::DuplicateString { span } => span,
        MicrotypeError::DuplicateInt { span } => span,
        MicrotypeError::ConflictingKinds { span } => span,
        MicrotypeError::DuplicateColumn { span } => span,
        MicrotypeError::MalformedColumn { span } => span,
        MicrotypeError::SerializeWithoutSerde { span } => span,
        MicrotypeError::SecretFeatureMissing { span } => span,
        MicrotypeError::IntSecret { span } => span,
    }
}

} // verus!
