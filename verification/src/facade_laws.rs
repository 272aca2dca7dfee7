//! Laws of the artifact facade, stated on the texts and fields that it reads.
use vstd::prelude::*;

use crate::error::NativeSolveError;
use crate::facade;
use crate::facade::{
    NativeBmcExecution, NativeEncodedArtifact, NativeProofMode, NativeSolveRequest,
    NativeSolvedArtifact, NativeVcKind, SmtLibBmcPayload, VerdictModel,
};
use crate::text;

verus! {

/// Whether the first line of an output, which ends at `to`, holds a word at `from`
/// and white space around it.
pub open spec fn frames(output: Seq<char>, word: Seq<char>, from: int, to: int) -> bool {
    &&& 0 <= from
    &&& from + word.len() <= to <= output.len()
    &&& output.subrange(from, from + word.len()) == word
    &&& forall|i: int| 0 <= i < to ==> #[trigger] output[i] != '\n'
    &&& to == output.len() || output[to] == '\n'
    &&& forall|i: int| 0 <= i < from ==> text::is_blank_char(#[trigger] output[i])
    &&& forall|i: int|
        from + word.len() <= i < to ==> text::is_blank_char(#[trigger] output[i])
}

/// Whether the first line of an output is a word, up to white space around it.
pub open spec fn opens_with(output: Seq<char>, word: Seq<char>) -> bool {
    exists|from: int, to: int| #[trigger] frames(output, word, from, to)
}

/// Whether an output reports no verdict.
pub open spec fn silent(output: Seq<char>) -> bool {
    &&& !opens_with(output, "unsat"@)
    &&& !opens_with(output, "sat"@)
    &&& !opens_with(output, "unknown"@)
}

/// Whether no output after the given one reports a verdict.
pub open spec fn last_word(outputs: Seq<Seq<char>>, i: int) -> bool {
    &&& 0 <= i < outputs.len()
    &&& forall|j: int| i < j < outputs.len() ==> silent(#[trigger] outputs[j])
}

proof fn lemma_line(content: Seq<char>) -> (end: int)
    ensures
        0 <= end <= content.len(),
        forall|j: int| 0 <= j < end ==> #[trigger] content[j] != '\n',
        end == content.len() || content[end] == '\n',
        text::first_line(content) == content.take(end),
    decreases content.len(),
{
    if content.len() == 0 || content[0] == '\n' {
        assert(text::first_line(content) =~= content.take(0));
        0
    } else {
        let rest = content.skip(1);
        let end = lemma_line(rest);
        assert forall|j: int| 0 <= j < end + 1 implies #[trigger] content[j] != '\n' by {
            if j > 0 {
                assert(rest[j - 1] != '\n');
            }
        }
        assert(text::first_line(content) =~= content.take(end + 1));
        end + 1
    }
}

proof fn lemma_trim(line: Seq<char>) -> (ends: (int, int))
    ensures
        0 <= ends.0 <= ends.1 <= line.len(),
        text::trimmed(line) == line.subrange(ends.0, ends.1),
        forall|i: int| 0 <= i < ends.0 ==> text::is_blank_char(#[trigger] line[i]),
        forall|i: int| ends.1 <= i < line.len() ==> text::is_blank_char(#[trigger] line[i]),
        ends.0 < ends.1 ==> !text::is_blank_char(line[ends.0]) && !text::is_blank_char(
            line[ends.1 - 1],
        ),
    decreases line.len(),
{
    if line.len() == 0 {
        assert(text::trimmed(line) =~= line.subrange(0, 0));
        (0, 0)
    } else if text::is_blank_char(line[0]) {
        let rest = line.skip(1);
        let (from, to) = lemma_trim(rest);
        assert(text::trimmed(line) =~= line.subrange(from + 1, to + 1));
        assert forall|i: int| 0 <= i < from + 1 implies text::is_blank_char(
            #[trigger] line[i],
        ) by {
            if i > 0 {
                assert(text::is_blank_char(rest[i - 1]));
            }
        }
        assert forall|i: int| to + 1 <= i < line.len() implies text::is_blank_char(
            #[trigger] line[i],
        ) by {
            assert(text::is_blank_char(rest[i - 1]));
        }
        (from + 1, to + 1)
    } else if text::is_blank_char(line.last()) {
        let rest = line.drop_last();
        let (from, to) = lemma_trim(rest);
        assert(text::trimmed(line) =~= line.subrange(from, to));
        assert forall|i: int| 0 <= i < from implies text::is_blank_char(#[trigger] line[i]) by {
            assert(text::is_blank_char(rest[i]));
        }
        assert forall|i: int| to <= i < line.len() implies text::is_blank_char(
            #[trigger] line[i],
        ) by {
            if i < rest.len() {
                assert(text::is_blank_char(rest[i]));
            }
        }
        (from, to)
    } else {
        assert(text::trimmed(line) =~= line.subrange(0, line.len() as int));
        (0, line.len() as int)
    }
}

proof fn lemma_opens(output: Seq<char>, word: Seq<char>)
    requires
        word.len() > 0,
        !text::is_blank_char(word[0]),
        !text::is_blank_char(word.last()),
    ensures
        text::trimmed(text::first_line(output)) == word <==> opens_with(output, word),
{
    let end = lemma_line(output);
    let line = output.take(end);
    let (from, to) = lemma_trim(line);
    if line.subrange(from, to) == word {
        assert(output.subrange(from, from + word.len()) =~= word);
        assert forall|i: int| 0 <= i < from implies text::is_blank_char(#[trigger] output[i]) by {
            assert(text::is_blank_char(line[i]));
        }
        assert forall|i: int| from + word.len() <= i < end implies text::is_blank_char(
            #[trigger] output[i],
        ) by {
            assert(text::is_blank_char(line[i]));
        }
        assert(frames(output, word, from, end));
    }
    if opens_with(output, word) {
        let (own, last) = choose|own: int, last: int| #[trigger] frames(output, word, own, last);
        if last < end {
            assert(output[last] != '\n');
        }
        if end < last {
            assert(output[end] != '\n');
        }
        assert(last == end);
        let whole = output.subrange(own, own + word.len());
        assert(whole[0] == output[own]);
        assert(whole.last() == output[own + word.len() - 1]);
        let tail = own + word.len() as int;
        assert(line[own] == word[0]);
        assert(line[tail - 1] == word.last());
        if own < from {
            assert(text::is_blank_char(line[own]));
        }
        if tail > to {
            assert(text::is_blank_char(line[tail - 1]));
        }
        assert(from < to);
        if from < own {
            assert(text::is_blank_char(output[from]));
        }
        if to > tail {
            assert(text::is_blank_char(output[to - 1]));
        }
        assert(line.subrange(from, to) =~= word);
    }
}

/// An output reports a verdict exactly where its first line is one of the three
/// answers of a check, up to white space: `unsat` proves, `sat` refutes and
/// `unknown` decides nothing.
pub proof fn law_answers_are_read_off_the_first_line(output: Seq<char>)
    ensures
        facade::output_verdict(output) == Some(VerdictModel::Proved) <==> opens_with(
            output,
            "unsat"@,
        ),
        facade::output_verdict(output) == Some(VerdictModel::Failed) <==> opens_with(
            output,
            "sat"@,
        ),
        facade::output_verdict(output) == Some(
            VerdictModel::Unknown("native AY executor returned unknown"@),
        ) <==> opens_with(output, "unknown"@),
        facade::output_verdict(output) is None <==> silent(output),
{
    reveal_strlit("unsat");
    reveal_strlit("sat");
    reveal_strlit("unknown");
    assert("unsat"@.len() == 5 && "sat"@.len() == 3 && "unknown"@.len() == 7);
    lemma_opens(output, "unsat"@);
    lemma_opens(output, "sat"@);
    lemma_opens(output, "unknown"@);
}

proof fn lemma_last_verdict(outputs: Seq<Seq<char>>, i: int)
    requires
        last_word(outputs, i),
        !silent(outputs[i]),
    ensures
        facade::last_verdict(outputs) == facade::output_verdict(outputs[i]),
    decreases outputs.len(),
{
    law_answers_are_read_off_the_first_line(outputs.last());
    if i < outputs.len() - 1 {
        let front = outputs.drop_last();
        assert(silent(outputs[outputs.len() - 1]));
        assert forall|j: int| i < j < front.len() implies silent(#[trigger] front[j]) by {
            assert(silent(outputs[j]));
        }
        lemma_last_verdict(front, i);
    }
}

proof fn lemma_no_verdict(outputs: Seq<Seq<char>>)
    requires
        forall|i: int| 0 <= i < outputs.len() ==> silent(#[trigger] outputs[i]),
    ensures
        facade::last_verdict(outputs) is None,
    decreases outputs.len(),
{
    if outputs.len() > 0 {
        assert(silent(outputs[outputs.len() - 1]));
        law_answers_are_read_off_the_first_line(outputs.last());
        let front = outputs.drop_last();
        assert forall|i: int| 0 <= i < front.len() implies silent(#[trigger] front[i]) by {
            assert(silent(outputs[i]));
        }
        lemma_no_verdict(front);
    }
}

/// The last output that reports a verdict decides, whatever stands before it and
/// whatever other output follows.
pub proof fn law_last_report_decides(outputs: Seq<Seq<char>>, i: int)
    requires
        last_word(outputs, i),
    ensures
        opens_with(outputs[i], "unsat"@) ==> facade::overall_verdict(outputs)
            == VerdictModel::Proved,
        opens_with(outputs[i], "sat"@) ==> facade::overall_verdict(outputs)
            == VerdictModel::Failed,
        opens_with(outputs[i], "unknown"@) ==> facade::overall_verdict(outputs)
            == VerdictModel::Unknown("native AY executor returned unknown"@),
{
    law_answers_are_read_off_the_first_line(outputs[i]);
    if !silent(outputs[i]) {
        lemma_last_verdict(outputs, i);
    }
}

proof fn lemma_some_report(outputs: Seq<Seq<char>>) -> (i: int)
    requires
        exists|i: int| 0 <= i < outputs.len() && !silent(#[trigger] outputs[i]),
    ensures
        last_word(outputs, i),
        !silent(outputs[i]),
    decreases outputs.len(),
{
    let last = outputs.len() - 1;
    if !silent(outputs[last]) {
        last
    } else {
        let front = outputs.drop_last();
        let found = choose|i: int| 0 <= i < outputs.len() && !silent(#[trigger] outputs[i]);
        assert(front[found] == outputs[found]);
        let i = lemma_some_report(front);
        assert forall|j: int| i < j < outputs.len() implies silent(#[trigger] outputs[j]) by {
            if j < last {
                assert(silent(front[j]));
            }
        }
        i
    }
}

/// A script is proved, or refuted, only by its last report, and the answer for
/// lack of a report is given exactly where no output reports anything.
pub proof fn law_verdicts_are_reported(outputs: Seq<Seq<char>>)
    ensures
        facade::overall_verdict(outputs) == VerdictModel::Proved <==> exists|i: int| #[trigger]
            last_word(outputs, i) && opens_with(outputs[i], "unsat"@),
        facade::overall_verdict(outputs) == VerdictModel::Failed <==> exists|i: int| #[trigger]
            last_word(outputs, i) && opens_with(outputs[i], "sat"@),
        facade::overall_verdict(outputs) == VerdictModel::Unknown(
            "native AY executor emitted no check-sat result"@,
        ) <==> forall|i: int| 0 <= i < outputs.len() ==> silent(#[trigger] outputs[i]),
        facade::overall_verdict(outputs) !is Timeout,
{
    reveal_strlit("native AY executor emitted no check-sat result");
    reveal_strlit("native AY executor returned unknown");
    assert("native AY executor emitted no check-sat result"@.len() == 46);
    assert("native AY executor returned unknown"@.len() == 35);
    if exists|i: int| 0 <= i < outputs.len() && !silent(#[trigger] outputs[i]) {
        let own = lemma_some_report(outputs);
        law_answers_are_read_off_the_first_line(outputs[own]);
        law_last_report_decides(outputs, own);
        assert forall|i: int| #[trigger] last_word(outputs, i) && !silent(outputs[i]) implies i
            == own by {
            if i < own {
                assert(silent(outputs[own]));
            }
            if own < i {
                assert(silent(outputs[i]));
            }
        }
    } else {
        assert forall|i: int| 0 <= i < outputs.len() implies silent(#[trigger] outputs[i]) by {}
        lemma_no_verdict(outputs);
    }
}

proof fn lemma_joined_verdicts(front: Seq<Seq<char>>, back: Seq<Seq<char>>)
    ensures
        facade::last_verdict(front + back) == match facade::last_verdict(back) {
            Some(verdict) => Some(verdict),
            None => facade::last_verdict(front),
        },
        facade::plain_outputs(front + back) == facade::plain_outputs(front)
            + facade::plain_outputs(back),
    decreases back.len(),
{
    if back.len() == 0 {
        assert(front + back =~= front);
        assert(facade::plain_outputs(front) + facade::plain_outputs(back)
            =~= facade::plain_outputs(front));
    } else {
        let whole = front + back;
        assert(whole.last() == back.last());
        assert(whole.drop_last() =~= front + back.drop_last());
        lemma_joined_verdicts(front, back.drop_last());
        assert(facade::plain_outputs(whole) =~= facade::plain_outputs(front)
            + facade::plain_outputs(back));
    }
}

/// Outputs that report nothing can be added anywhere, or left out, without
/// changing the verdict.
pub proof fn law_silent_outputs_change_no_verdict(
    front: Seq<Seq<char>>,
    extra: Seq<Seq<char>>,
    back: Seq<Seq<char>>,
)
    requires
        forall|i: int| 0 <= i < extra.len() ==> silent(#[trigger] extra[i]),
    ensures
        facade::overall_verdict(front + extra + back) == facade::overall_verdict(front + back),
{
    lemma_no_verdict(extra);
    lemma_joined_verdicts(front, extra);
    lemma_joined_verdicts(front + extra, back);
    lemma_joined_verdicts(front, back);
}

/// The messages of a script are its outputs that report nothing, each as it
/// stands and in order.
pub proof fn law_messages_are_the_silent_outputs(
    front: Seq<Seq<char>>,
    output: Seq<char>,
    back: Seq<Seq<char>>,
)
    ensures
        silent(output) ==> facade::plain_outputs(front + seq![output] + back)
            == facade::plain_outputs(front) + seq![output] + facade::plain_outputs(back),
        !silent(output) ==> facade::plain_outputs(front + seq![output] + back)
            == facade::plain_outputs(front) + facade::plain_outputs(back),
        facade::plain_outputs(Seq::empty()) == Seq::<Seq<char>>::empty(),
{
    law_answers_are_read_off_the_first_line(output);
    lemma_joined_verdicts(front + seq![output], back);
    lemma_joined_verdicts(front, seq![output]);
    assert(seq![output].drop_last() =~= Seq::<Seq<char>>::empty());
    reveal_with_fuel(facade::plain_outputs, 2);
    assert(facade::plain_outputs(seq![output]) =~= if silent(output) {
        seq![output]
    } else {
        Seq::empty()
    });
    assert(facade::plain_outputs(front) + Seq::<Seq<char>>::empty() =~= facade::plain_outputs(
        front,
    ));
}

/// A response is about the artifact of its request and carries its provenance and
/// no certificate. It proves, or refutes, exactly where the executor completed and
/// its last report says so, and it timed out exactly where the executor did.
pub proof fn law_responses_tell_the_last_report(
    request: NativeSolveRequest,
    execution: NativeBmcExecution,
    response: NativeSolvedArtifact,
)
    requires
        facade::answers(
            request,
            Ok::<NativeBmcExecution, NativeSolveError>(execution),
            Ok::<NativeSolvedArtifact, NativeSolveError>(response),
        ),
    ensures
        response.obligation_id == request.artifact.obligation_id,
        response.provenance == request.artifact.provenance,
        response.proof_certificate is None,
        response.verdict@ is Timeout <==> execution is TimedOut,
        response.verdict@ is Proved <==> (execution matches NativeBmcExecution::Completed(outputs)
            && exists|i: int| #[trigger]
            last_word(text::owned_texts(outputs@), i) && opens_with(
                outputs@[i]@,
                "unsat"@,
            )),
        response.verdict@ is Failed <==> (execution matches NativeBmcExecution::Completed(outputs)
            && exists|i: int| #[trigger]
            last_word(text::owned_texts(outputs@), i) && opens_with(outputs@[i]@, "sat"@)),
{
    if let NativeBmcExecution::Completed(outputs) = execution {
        law_verdicts_are_reported(text::owned_texts(outputs@));
    }
}

/// A request reaches the decoding of its payload exactly where it names an
/// obligation and a function, carries bytes, is a bounded-checking artifact with a
/// depth and a bounded-checking mode, and asks for no certificate.
pub proof fn law_admitted_requests(request: NativeSolveRequest)
    ensures
        facade::admission_fault(request) is None <==> {
            let artifact = request.artifact;
            &&& exists|i: int|
                0 <= i < artifact.obligation_id@.len() && !text::is_blank_char(
                    #[trigger] artifact.obligation_id@[i],
                )
            &&& exists|i: int|
                0 <= i < artifact.function_name@.len() && !text::is_blank_char(
                    #[trigger] artifact.function_name@[i],
                )
            &&& artifact.payload@.len() > 0
            &&& artifact.kind == NativeVcKind::Bmc
            &&& artifact.provenance.bmc_depth is Some
            &&& artifact.provenance.proof_mode == NativeProofMode::Bmc
                || artifact.provenance.proof_mode == NativeProofMode::FiniteAcyclicBmc
            &&& !request.produce_proof_certificate
        },
{
}

/// A payload is executed exactly where it is an envelope of the understood format
/// and version, holds a script, and says of the obligation what the artifact that
/// carries it says, field by field.
pub proof fn law_executed_payloads_describe_their_artifact(
    payload: SmtLibBmcPayload,
    artifact: NativeEncodedArtifact,
)
    ensures
        facade::payload_fault(payload, artifact) is None <==> {
            &&& payload.format@ == "trust_mc.native.smtlib-bmc"@
            &&& payload.version == 1
            &&& payload.kind@ == "bmc"@
            &&& payload.obligation_id@ == artifact.obligation_id@
            &&& payload.function_name@ == artifact.function_name@
            &&& exists|i: int|
                0 <= i < payload.script@.len() && !text::is_blank_char(
                    #[trigger] payload.script@[i],
                )
            &&& payload.provenance.proof_mode@ == match artifact.provenance.proof_mode {
                NativeProofMode::Bmc => "bmc"@,
                NativeProofMode::FiniteAcyclicBmc => "finite_acyclic_bmc"@,
                NativeProofMode::Chc => "chc"@,
                NativeProofMode::PdrIc3 => "pdr_ic3"@,
            }
            &&& payload.provenance.bmc_depth == artifact.provenance.bmc_depth
            &&& payload.provenance.finite_acyclic == artifact.provenance.finite_acyclic
            &&& payload.provenance.producer@ == artifact.provenance.producer@
        },
{
    reveal_strlit("bmc");
    reveal_strlit("finite_acyclic_bmc");
    reveal_strlit("chc");
    reveal_strlit("pdr_ic3");
    assert("bmc"@.len() == 3 && "finite_acyclic_bmc"@.len() == 18 && "chc"@.len() == 3
        && "pdr_ic3"@.len() == 7);
    assert("bmc"@[0] == 'b' && "chc"@[0] == 'c');
}

} // verus!
