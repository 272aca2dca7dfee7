//! Grading of verdicts for publication.
use vstd::prelude::*;

use crate::error::FullVerificationProblemKind;
use crate::verdicts::FullVerificationVerdict;

verus! {

/// Grade that the evidence policy gives a verdict.
#[derive(Debug, PartialEq, Eq)]
pub enum ProofGradeVerdict {
    /// The verdict is proof-grade.
    ProofGrade,
    /// The verdict is not proof-grade, and why.
    NotProofGrade { problem_kind: Option<FullVerificationProblemKind>, reasons: Vec<String> },
}

/// Grades a verdict by the evidence policy.
pub fn classify_native_full_verification_verdict<A>(
    verdict: &FullVerificationVerdict,
    policy: &A,
) -> (grade: ProofGradeVerdict) where A: Fn(&FullVerificationVerdict) -> ProofGradeVerdict
    requires
        policy.requires((verdict,)),
    ensures
        policy.ensures((verdict,), grade),
{
    policy(verdict)
}

/// Whether the evidence policy holds a verdict to be proof-grade.
pub fn is_proof_grade_native_full_verification_verdict<A>(
    verdict: &FullVerificationVerdict,
    policy: &A,
) -> (yes: bool) where A: Fn(&FullVerificationVerdict) -> ProofGradeVerdict
    requires
        policy.requires((verdict,)),
    ensures
        exists|grade: ProofGradeVerdict| #[trigger]
            policy.ensures((verdict,), grade) && yes == (grade is ProofGrade),
{
    match classify_native_full_verification_verdict(verdict, policy) {
        ProofGradeVerdict::ProofGrade => true,
        ProofGradeVerdict::NotProofGrade { .. } => false,
    }
}

} // verus!
