//! Errors of the native driver.
use vstd::prelude::*;
use vstd::string::*;

use crate::text;
use crate::text::assemble;

verus! {

/// Result of a native driver operation.
pub type NativeSolveResult<T> = Result<T, NativeSolveError>;

/// Native driver operation that failed.
#[derive(Debug, Clone, Copy, PartialEq, Eq, Structural)]
pub enum NativeOperation {
    /// Solving a native artifact.
    Solve,
}

impl NativeOperation {
    /// Name of the operation in messages.
    pub open spec fn label(self) -> Seq<char> {
        match self {
            NativeOperation::Solve => "solve"@,
        }
    }

    /// Name of the operation in messages.
    pub fn as_str(self) -> (label: &'static str)
        ensures
            label@ == self.label(),
    {
        match self {
            NativeOperation::Solve => "solve",
        }
    }
}

/// An operation that the driver does not offer.
#[derive(Debug, Clone, PartialEq, Eq)]
pub struct NativeSolveUnsupported {
    /// Operation that is not offered.
    pub operation: NativeOperation,
    /// Stable machine-readable reason.
    pub reason: String,
    /// Human-readable detail.
    pub detail: String,
}

/// Kind of problem that evidence is about.
#[derive(Debug, Clone, Copy, PartialEq, Eq, Structural)]
pub enum FullVerificationProblemKind {
    /// A typed Horn-clause problem.
    ChcPdr,
    /// Any other problem.
    Other,
}

/// Why evidence was not accepted as a proof.
#[derive(Debug, Clone, PartialEq, Eq)]
pub struct ProofEvidenceRejection {
    pub problem_kind: Option<FullVerificationProblemKind>,
    pub reasons: Vec<String>,
}

/// Error of the native driver.
#[derive(Debug, Clone, PartialEq, Eq)]
pub enum NativeSolveError {
    /// The operation is not offered.
    Unsupported(NativeSolveUnsupported),
    /// The request was refused before solving.
    InvalidInput { field: String, detail: String },
    /// The solver failed on an admitted request.
    SolverFailed { reason: String },
    /// The solver's verdict was not acceptable as proof-grade evidence.
    ProofGradeRejected { rejection: ProofEvidenceRejection },
}

/// Mathematical content of a [`NativeSolveError`].
pub enum ErrorModel {
    Unsupported { operation: NativeOperation, reason: Seq<char>, detail: Seq<char> },
    InvalidInput { field: Seq<char>, detail: Seq<char> },
    SolverFailed { reason: Seq<char> },
    ProofGradeRejected {
        problem_kind: Option<FullVerificationProblemKind>,
        reasons: Seq<Seq<char>>,
    },
}

impl View for NativeSolveError {
    type V = ErrorModel;

    open spec fn view(&self) -> ErrorModel {
        match self {
            NativeSolveError::Unsupported(unsupported) => ErrorModel::Unsupported {
                operation: unsupported.operation,
                reason: unsupported.reason@,
                detail: unsupported.detail@,
            },
            NativeSolveError::InvalidInput { field, detail } => ErrorModel::InvalidInput {
                field: field@,
                detail: detail@,
            },
            NativeSolveError::SolverFailed { reason } => ErrorModel::SolverFailed {
                reason: reason@,
            },
            NativeSolveError::ProofGradeRejected { rejection } => ErrorModel::ProofGradeRejected {
                problem_kind: rejection.problem_kind,
                reasons: text::owned_texts(rejection.reasons@),
            },
        }
    }
}

/// The message of an error. `rejection` is how the evidence policy words a
/// rejection.
pub open spec fn message(error: ErrorModel, rejection: Seq<char>) -> Seq<char> {
    match error {
        ErrorModel::Unsupported { operation, reason, detail } => text::concat(
            seq![
                "native "@,
                operation.label(),
                " is unsupported: "@,
                reason,
                " ("@,
                detail,
                ")"@,
            ],
        ),
        ErrorModel::InvalidInput { field, detail } => text::concat(
            seq!["invalid native solve input `"@, field, "`: "@, detail],
        ),
        ErrorModel::SolverFailed { reason } => text::concat(
            seq!["native solver failed: "@, reason],
        ),
        ErrorModel::ProofGradeRejected { .. } => text::concat(
            seq!["native proof-grade evidence rejected: "@, rejection],
        ),
    }
}

impl NativeSolveError {
    /// The message of this error. `rejection` is how the evidence policy words a
    /// rejection; other errors do not use it.
    pub fn message(&self, rejection: &str) -> (text: String)
        ensures
            text@ == message(self@, rejection@),
    {
        let mut parts: Vec<&str> = Vec::new();
        match self {
            NativeSolveError::Unsupported(unsupported) => {
                parts.push("native ");
                parts.push(unsupported.operation.as_str());
                parts.push(" is unsupported: ");
                parts.push(unsupported.reason.as_str());
                parts.push(" (");
                parts.push(unsupported.detail.as_str());
                parts.push(")");
                assert(text::texts(parts@) =~= seq![
                    "native "@,
                    unsupported.operation.label(),
                    " is unsupported: "@,
                    unsupported.reason@,
                    " ("@,
                    unsupported.detail@,
                    ")"@,
                ]);
            },
            NativeSolveError::InvalidInput { field, detail } => {
                parts.push("invalid native solve input `");
                parts.push(field.as_str());
                parts.push("`: ");
                parts.push(detail.as_str());
                assert(text::texts(parts@) =~= seq![
                    "invalid native solve input `"@,
                    field@,
                    "`: "@,
                    detail@,
                ]);
            },
            NativeSolveError::SolverFailed { reason } => {
                parts.push("native solver failed: ");
                parts.push(reason.as_str());
                assert(text::texts(parts@) =~= seq!["native solver failed: "@, reason@]);
            },
            NativeSolveError::ProofGradeRejected { .. } => {
                parts.push("native proof-grade evidence rejected: ");
                parts.push(rejection);
                assert(text::texts(parts@) =~= seq![
                    "native proof-grade evidence rejected: "@,
                    rejection@,
                ]);
            },
        }
        assemble(&parts)
    }
}

/// The refusal of an operation that the driver does not offer.
pub open spec fn unsupported_model(reason: Seq<char>, detail: Seq<char>) -> ErrorModel {
    ErrorModel::Unsupported { operation: NativeOperation::Solve, reason, detail }
}

/// The refusal of an operation that the driver does not offer.
pub(crate) fn unsupported(reason: &str, detail: &str) -> (error: NativeSolveError)
    ensures
        error@ == unsupported_model(reason@, detail@),
{
    NativeSolveError::Unsupported(
        NativeSolveUnsupported {
            operation: NativeOperation::Solve,
            reason: reason.to_owned(),
            detail: detail.to_owned(),
        },
    )
}

/// The refusal of a request field.
pub open spec fn invalid_model(field: Seq<char>, detail: Seq<char>) -> ErrorModel {
    ErrorModel::InvalidInput { field, detail }
}

/// The refusal of a request field.
pub(crate) fn invalid_input(field: &str, detail: &str) -> (error: NativeSolveError)
    ensures
        error@ == invalid_model(field@, detail@),
{
    NativeSolveError::InvalidInput { field: field.to_owned(), detail: detail.to_owned() }
}

/// The error, where there is one, as its model.
pub open spec fn failure<T>(result: NativeSolveResult<T>) -> Option<ErrorModel> {
    match result {
        Ok(_) => None,
        Err(error) => Some(error@),
    }
}

} // verus!
