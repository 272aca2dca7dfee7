//! Laws of the admission to proof authority, stated on the parts of a bundle.
use vstd::prelude::*;

use crate::admission;
use crate::admission::{
    AdmissionProfile, Alloca, Block, Cast, CastOp, Function, Instruction, InstructionNode,
    NativeVerificationBundle, ProofAnnotation,
};
use crate::text;

verus! {

/// Whether a name is a word, or a path whose last segment is that word.
pub open spec fn path_to(name: Seq<char>, word: Seq<char>) -> bool {
    name == word || exists|front: Seq<char>| name == #[trigger] (front + "::"@) + word
}

/// Whether a function stands at a position and is the first with its identifier.
pub open spec fn first_with(functions: Seq<Function>, id: u32, at: int) -> bool {
    &&& 0 <= at < functions.len()
    &&& functions[at].id == id
    &&& forall|i: int| 0 <= i < at ==> (#[trigger] functions[i]).id != id
}

/// Whether the translation of an instruction is exact by itself.
pub open spec fn exact(
    functions: Seq<Function>,
    profile: AdmissionProfile,
    instruction: Instruction,
) -> bool {
    match instruction {
        Instruction::Load | Instruction::Store | Instruction::Other => true,
        Instruction::Assume | Instruction::PtrMetadata | Instruction::PtrData =>
            profile.source_generation_authorized,
        Instruction::Borrow | Instruction::BorrowMut => profile.admit_borrows,
        Instruction::Alloca(cell) => cell.admissible && cell.has_result && !(cell.has_count
            || cell.has_align),
        Instruction::Cast(cast) => cast.admissible || (cast.op != CastOp::Other
            && cast.source.integer && cast.target.integer),
        Instruction::Call { callee } => exists|at: int| #[trigger]
            first_with(functions, callee, at) && !path_to(functions[at].name@, "wrapping_add"@)
                && !path_to(functions[at].name@, "wrapping_sub"@) && !path_to(
                functions[at].name@,
                "wrapping_mul"@,
            ),
        Instruction::Undef
        | Instruction::ExtractElement
        | Instruction::Gep
        | Instruction::PtrFromParts
        | Instruction::DialectOp => false,
    }
}

proof fn lemma_path_to(name: Seq<char>, word: Seq<char>)
    ensures
        admission::last_segment_is(name, word) <==> path_to(name, word),
{
    let parts = seq!["::"@, word];
    reveal_with_fuel(text::concat, 3);
    assert(parts.drop_last() =~= seq!["::"@]);
    assert(parts.drop_last().drop_last() =~= Seq::empty());
    let tail = text::concat(parts);
    assert(tail =~= "::"@ + word);
    if admission::ends_with(name, tail) {
        let front = name.take(name.len() - tail.len());
        assert(name =~= front + name.skip(name.len() - tail.len()));
        assert((front + "::"@) + word =~= front + tail);
    }
    if exists|front: Seq<char>| name == #[trigger] (front + "::"@) + word {
        let front = choose|front: Seq<char>| name == #[trigger] (front + "::"@) + word;
        assert(name =~= front + tail);
        assert(name.skip(name.len() - tail.len()) =~= tail);
    }
}

proof fn lemma_first_with(functions: Seq<Function>, id: u32)
    ensures
        match admission::position(functions, id) {
            Some(at) => first_with(functions, id, at),
            None => forall|at: int| !#[trigger] first_with(functions, id, at),
        },
    decreases functions.len(),
{
    admission::lemma_position(functions, id);
    if functions.len() > 0 {
        let front = functions.drop_last();
        lemma_first_with(front, id);
        admission::lemma_position(front, id);
        if let Some(at) = admission::position(functions, id) {
            assert forall|i: int| 0 <= i < at implies (#[trigger] functions[i]).id != id by {
                assert(front[i] == functions[i]);
            }
        }
    }
}

proof fn lemma_one_first(functions: Seq<Function>, id: u32, one: int, other: int)
    requires
        first_with(functions, id, one),
        first_with(functions, id, other),
    ensures
        one == other,
{
    if one < other {
        assert(functions[one].id != id);
    }
    if other < one {
        assert(functions[other].id != id);
    }
}

/// An instruction is admitted exactly where its translation is exact, or it is an
/// undefined value marked as a fresh symbol, and where no annotation on it claims
/// anything that nothing vouches for: a fresh symbol stands on undefined values
/// only, wrapping needs the authority of the live lowering, and so does a checked
/// borrow, which goes with reads and writes only.
pub proof fn law_admitted_instructions(
    functions: Seq<Function>,
    profile: AdmissionProfile,
    place: Seq<char>,
    node: InstructionNode,
)
    ensures
        admission::node_fault(functions, profile, place, node) is None <==> {
            &&& node.annotations@.contains(ProofAnnotation::FreshSymbolicHavoc)
                <==> node.instruction is Undef
            &&& node.annotations@.contains(ProofAnnotation::Wrapping)
                ==> profile.source_generation_authorized
            &&& node.annotations@.contains(ProofAnnotation::ValidBorrow)
                ==> profile.source_generation_authorized && (node.instruction is Load
                || node.instruction is Store)
            &&& node.instruction is Undef || exact(functions, profile, node.instruction)
        },
{
    if let Instruction::Call { callee } = node.instruction {
        lemma_first_with(functions, callee);
        if let Some(at) = admission::position(functions, callee) {
            let name = functions[at].name@;
            lemma_path_to(name, "wrapping_add"@);
            lemma_path_to(name, "wrapping_sub"@);
            lemma_path_to(name, "wrapping_mul"@);
            assert forall|other: int| #[trigger] first_with(functions, callee, other) implies other
                == at by {
                lemma_one_first(functions, callee, at, other);
            }
        }
    }
}

/// A cast without annotations that truncates or extends an integer to an integer is
/// admitted under every profile, whatever the two types are, and any other cast
/// exactly where the translator models it as a bit identity.
pub proof fn law_integer_casts_are_admitted(
    functions: Seq<Function>,
    profile: AdmissionProfile,
    place: Seq<char>,
    node: InstructionNode,
    cast: Cast,
)
    requires
        node.annotations@.len() == 0,
        node.instruction == Instruction::Cast(cast),
    ensures
        (cast.op == CastOp::Trunc || cast.op == CastOp::ZExt || cast.op == CastOp::SExt)
            && cast.source.integer && cast.target.integer ==> admission::node_fault(
            functions,
            profile,
            place,
            node,
        ) is None,
        !((cast.op == CastOp::Trunc || cast.op == CastOp::ZExt || cast.op == CastOp::SExt)
            && cast.source.integer && cast.target.integer) ==> (admission::node_fault(
            functions,
            profile,
            place,
            node,
        ) is None <==> cast.admissible),
{
    assert(!node.annotations@.contains(ProofAnnotation::FreshSymbolicHavoc));
    assert(!node.annotations@.contains(ProofAnnotation::Wrapping));
    assert(!node.annotations@.contains(ProofAnnotation::ValidBorrow));
}

/// Two casts that agree on the operation, on whether the types are integers and on
/// what the translator models are admitted alike, however messages name them, and
/// so are two stack cells that agree on their parts.
pub proof fn law_names_decide_no_admission(
    functions: Seq<Function>,
    profile: AdmissionProfile,
    place: Seq<char>,
    other_place: Seq<char>,
    node: InstructionNode,
    other: InstructionNode,
)
    requires
        node.annotations@ == other.annotations@,
        match (node.instruction, other.instruction) {
            (Instruction::Cast(one), Instruction::Cast(two)) => one.op == two.op
                && one.source.integer == two.source.integer && one.target.integer
                == two.target.integer && one.admissible == two.admissible,
            (Instruction::Alloca(one), Instruction::Alloca(two)) => one.has_count == two.has_count
                && one.has_align == two.has_align && one.has_result == two.has_result
                && one.admissible == two.admissible,
            (one, two) => one == two,
        },
    ensures
        admission::node_fault(functions, profile, place, node) is None <==> admission::node_fault(
            functions,
            profile,
            other_place,
            other,
        ) is None,
{
}

/// Whether every instruction of a function is admitted.
pub open spec fn all_admitted(
    functions: Seq<Function>,
    profile: AdmissionProfile,
    function: Function,
) -> bool {
    forall|b: int, i: int|
        0 <= b < function.blocks@.len() && 0 <= i < function.blocks@[b].body@.len()
            ==> admission::node_fault(
            functions,
            profile,
            Seq::empty(),
            #[trigger] function.blocks@[b].body@[i],
        ) is None
}

proof fn lemma_body_admitted(
    functions: Seq<Function>,
    profile: AdmissionProfile,
    name: Seq<char>,
    block: u32,
    body: Seq<InstructionNode>,
)
    ensures
        admission::body_fault(functions, profile, name, block, body) is None <==> forall|i: int|
            0 <= i < body.len() ==> admission::node_fault(
                functions,
                profile,
                Seq::empty(),
                #[trigger] body[i],
            ) is None,
    decreases body.len(),
{
    if body.len() > 0 {
        let front = body.drop_last();
        lemma_body_admitted(functions, profile, name, block, front);
        let last = body[body.len() - 1];
        assert(last == body.last());
        law_names_decide_no_admission(
            functions,
            profile,
            admission::location(name, block, (body.len() - 1) as nat),
            Seq::empty(),
            last,
            last,
        );
        assert forall|i: int| 0 <= i < front.len() implies #[trigger] front[i] == body[i] by {}
        if forall|i: int|
            0 <= i < front.len() ==> admission::node_fault(
                functions,
                profile,
                Seq::empty(),
                #[trigger] front[i],
            ) is None {
            assert forall|i: int| 0 <= i < body.len() - 1 implies admission::node_fault(
                functions,
                profile,
                Seq::empty(),
                #[trigger] body[i],
            ) is None by {
                assert(front[i] == body[i]);
            }
        }
    }
}

proof fn lemma_blocks_admitted(
    functions: Seq<Function>,
    profile: AdmissionProfile,
    name: Seq<char>,
    blocks: Seq<Block>,
)
    ensures
        admission::blocks_fault(functions, profile, name, blocks) is None <==> forall|
            b: int,
            i: int,
        |
            0 <= b < blocks.len() && 0 <= i < blocks[b].body@.len() ==> admission::node_fault(
                functions,
                profile,
                Seq::empty(),
                #[trigger] blocks[b].body@[i],
            ) is None,
    decreases blocks.len(),
{
    if blocks.len() > 0 {
        let front = blocks.drop_last();
        let last = blocks[blocks.len() - 1];
        assert(last == blocks.last());
        lemma_blocks_admitted(functions, profile, name, front);
        lemma_body_admitted(functions, profile, name, last.id, last.body@);
        assert forall|b: int| 0 <= b < front.len() implies #[trigger] front[b] == blocks[b] by {}
        if admission::blocks_fault(functions, profile, name, blocks) is None {
            assert forall|b: int, i: int|
                0 <= b < blocks.len() && 0 <= i < blocks[b].body@.len() implies admission::node_fault(
                functions,
                profile,
                Seq::empty(),
                #[trigger] blocks[b].body@[i],
            ) is None by {
                if b < front.len() {
                    assert(front[b].body@[i] == blocks[b].body@[i]);
                }
            }
        }
        if forall|b: int, i: int|
            0 <= b < blocks.len() && 0 <= i < blocks[b].body@.len() ==> admission::node_fault(
                functions,
                profile,
                Seq::empty(),
                #[trigger] blocks[b].body@[i],
            ) is None {
            assert forall|i: int| 0 <= i < last.body@.len() implies admission::node_fault(
                functions,
                profile,
                Seq::empty(),
                #[trigger] last.body@[i],
            ) is None by {
                assert(blocks[blocks.len() - 1].body@[i] == last.body@[i]);
            }
            assert forall|b: int, i: int|
                0 <= b < front.len() && 0 <= i < front[b].body@.len() implies admission::node_fault(
                functions,
                profile,
                Seq::empty(),
                #[trigger] front[b].body@[i],
            ) is None by {
                assert(blocks[b].body@[i] == front[b].body@[i]);
            }
        }
    }
}

/// Whether a function has an instruction that calls another.
pub open spec fn has_call(function: Function, to: u32) -> bool {
    exists|b: int, i: int|
        0 <= b < function.blocks@.len() && 0 <= i < function.blocks@[b].body@.len() && (
        #[trigger] function.blocks@[b].body@[i]).instruction == (Instruction::Call { callee: to })
}

proof fn lemma_body_calls(body: Seq<InstructionNode>, to: u32)
    ensures
        admission::body_callees(body).contains(to) <==> exists|i: int|
            0 <= i < body.len() && (#[trigger] body[i]).instruction == (Instruction::Call {
                callee: to,
            }),
    decreases body.len(),
{
    if body.len() > 0 {
        let front = body.drop_last();
        let last = body[body.len() - 1];
        assert(last == body.last());
        lemma_body_calls(front, to);
        let before = admission::body_callees(front);
        let all = admission::body_callees(body);
        if exists|i: int|
            0 <= i < front.len() && (#[trigger] front[i]).instruction == (Instruction::Call {
                callee: to,
            }) {
            let i = choose|i: int|
                0 <= i < front.len() && (#[trigger] front[i]).instruction == (Instruction::Call {
                    callee: to,
                });
            assert(body[i] == front[i]);
            let j = choose|j: int| 0 <= j < before.len() && before[j] == to;
            assert(all[j] == to);
        }
        if exists|i: int|
            0 <= i < body.len() && (#[trigger] body[i]).instruction == (Instruction::Call {
                callee: to,
            }) {
            let i = choose|i: int|
                0 <= i < body.len() && (#[trigger] body[i]).instruction == (Instruction::Call {
                    callee: to,
                });
            if i < front.len() {
                assert(front[i] == body[i]);
            } else {
                assert(all == before.push(to));
                assert(all[before.len() as int] == to);
            }
        }
        if all.contains(to) {
            let j = choose|j: int| 0 <= j < all.len() && all[j] == to;
            if j < before.len() {
                assert(before[j] == to);
            } else {
                assert(body[body.len() - 1].instruction == (Instruction::Call { callee: to }));
            }
        }
    } else {
        assert(!admission::body_callees(body).contains(to));
    }
}

proof fn lemma_blocks_call(blocks: Seq<Block>, to: u32)
    ensures
        admission::blocks_callees(blocks).contains(to) <==> exists|b: int, i: int|
            0 <= b < blocks.len() && 0 <= i < blocks[b].body@.len() && (
            #[trigger] blocks[b].body@[i]).instruction == (Instruction::Call { callee: to }),
    decreases blocks.len(),
{
    if blocks.len() > 0 {
        let front = blocks.drop_last();
        let last = blocks[blocks.len() - 1];
        assert(last == blocks.last());
        lemma_blocks_call(front, to);
        lemma_body_calls(last.body@, to);
        let before = admission::blocks_callees(front);
        let own = admission::body_callees(last.body@);
        let all = admission::blocks_callees(blocks);
        assert(all == before + own);
        if all.contains(to) {
            let j = choose|j: int| 0 <= j < all.len() && all[j] == to;
            if j < before.len() {
                assert(before[j] == to);
                let (b, i) = choose|b: int, i: int|
                    0 <= b < front.len() && 0 <= i < front[b].body@.len() && (
                    #[trigger] front[b].body@[i]).instruction == (Instruction::Call {
                        callee: to,
                    });
                assert(blocks[b].body@[i] == front[b].body@[i]);
            } else {
                assert(own[j - before.len()] == to);
                let i = choose|i: int|
                    0 <= i < last.body@.len() && (#[trigger] last.body@[i]).instruction == (
                    Instruction::Call { callee: to });
                assert(blocks[blocks.len() - 1].body@[i] == last.body@[i]);
            }
        }
        if exists|b: int, i: int|
            0 <= b < blocks.len() && 0 <= i < blocks[b].body@.len() && (
            #[trigger] blocks[b].body@[i]).instruction == (Instruction::Call { callee: to }) {
            let (b, i) = choose|b: int, i: int|
                0 <= b < blocks.len() && 0 <= i < blocks[b].body@.len() && (
                #[trigger] blocks[b].body@[i]).instruction == (Instruction::Call { callee: to });
            if b < front.len() {
                assert(front[b].body@[i] == blocks[b].body@[i]);
                let j = choose|j: int| 0 <= j < before.len() && before[j] == to;
                assert(all[j] == to);
            } else {
                assert(last.body@[i].instruction == (Instruction::Call { callee: to }));
                let j = choose|j: int| 0 <= j < own.len() && own[j] == to;
                assert(all[before.len() + j] == to);
            }
        }
    } else {
        assert(!admission::blocks_callees(blocks).contains(to));
    }
}

/// Whether a set of functions holds the requested ones and, with each, those that
/// it calls, and each of them is there and has admitted instructions only.
pub open spec fn vouched(
    bundle: NativeVerificationBundle,
    profile: AdmissionProfile,
    all: Set<u32>,
) -> bool {
    &&& forall|i: int| 0 <= i < bundle.requested@.len() ==> all.contains(
        #[trigger] bundle.requested@[i],
    )
    &&& forall|id: u32| #[trigger]
        all.contains(id) ==> exists|at: int| #[trigger]
            first_with(bundle.functions@, id, at) && all_admitted(
                bundle.functions@,
                profile,
                bundle.functions@[at],
            ) && forall|to: u32| #[trigger]
                has_call(bundle.functions@[at], to) ==> all.contains(to)
}

proof fn lemma_vouched_path(
    bundle: NativeVerificationBundle,
    profile: AdmissionProfile,
    all: Set<u32>,
    path: Seq<u32>,
)
    requires
        vouched(bundle, profile, all),
        admission::call_path(bundle.functions@, bundle.requested@, path),
    ensures
        all.contains(path.last()),
    decreases path.len(),
{
    let functions = bundle.functions@;
    let requested = bundle.requested@;
    if path.len() == 1 {
        let i = choose|i: int| 0 <= i < requested.len() && requested[i] == path[0];
        assert(all.contains(requested[i]));
    } else {
        let front = path.drop_last();
        assert forall|i: int| 0 <= i < front.len() - 1 implies admission::calls(
            functions,
            #[trigger] front[i],
            front[i + 1],
        ) by {
            assert(path[i] == front[i] && path[i + 1] == front[i + 1]);
        }
        lemma_vouched_path(bundle, profile, all, front);
        let from = path[path.len() - 2];
        assert(front.last() == from);
        assert(admission::calls(functions, from, path[path.len() - 2 + 1]));
        let at = admission::position(functions, from)->0;
        lemma_first_with(functions, from);
        lemma_blocks_call(functions[at].blocks@, path.last());
        assert(has_call(functions[at], path.last()));
        let own = choose|own: int| #[trigger]
            first_with(functions, from, own) && all_admitted(functions, profile, functions[own])
                && forall|to: u32| #[trigger] has_call(functions[own], to) ==> all.contains(to);
        lemma_one_first(functions, from, at, own);
    }
}

/// A bundle is admitted exactly where its module is valid and for a target with
/// pointers of eight bytes, and some set of functions holds the requested ones and
/// is closed under calls, each of which is there with admitted instructions only.
pub proof fn law_admitted_bundles(bundle: NativeVerificationBundle, profile: AdmissionProfile)
    ensures
        admission::gate_fault(bundle, profile) is None <==> {
            &&& bundle.module_valid
            &&& bundle.target_info matches Some(target) && target.pointer_size == 8
            &&& exists|all: Set<u32>| #[trigger] vouched(bundle, profile, all)
        },
{
    let functions = bundle.functions@;
    let requested = bundle.requested@;
    admission::law_admitted_means_all_reachable_clean(bundle, profile);
    if admission::gate_fault(bundle, profile) is None {
        let all = Set::new(|id: u32| admission::reachable(functions, requested, id));
        assert forall|i: int| 0 <= i < requested.len() implies all.contains(
            #[trigger] requested[i],
        ) by {
            let path = seq![requested[i]];
            assert(admission::call_path(functions, requested, path));
            assert(path.last() == requested[i]);
        }
        assert forall|id: u32| #[trigger] all.contains(id) implies exists|at: int| #[trigger]
            first_with(functions, id, at) && all_admitted(functions, profile, functions[at])
                && forall|to: u32| #[trigger] has_call(functions[at], to) ==> all.contains(to) by {
            assert(admission::reachable(functions, requested, id));
            assert(admission::clean(functions, profile, id));
            let at = admission::position(functions, id)->0;
            lemma_first_with(functions, id);
            lemma_blocks_admitted(
                functions,
                profile,
                functions[at].name@,
                functions[at].blocks@,
            );
            assert forall|to: u32| #[trigger] has_call(functions[at], to) implies all.contains(
                to,
            ) by {
                lemma_blocks_call(functions[at].blocks@, to);
                assert(admission::calls(functions, id, to));
                admission::lemma_reaches_on(functions, requested, id, to);
            }
            assert(first_with(functions, id, at));
        }
        assert(vouched(bundle, profile, all));
    }
    if exists|all: Set<u32>| #[trigger] vouched(bundle, profile, all) {
        let all = choose|all: Set<u32>| #[trigger] vouched(bundle, profile, all);
        assert forall|id: u32| #[trigger]
            admission::reachable(functions, requested, id) implies admission::clean(
            functions,
            profile,
            id,
        ) by {
            let path = choose|path: Seq<u32>| #[trigger]
                admission::call_path(functions, requested, path) && path.last() == id;
            lemma_vouched_path(bundle, profile, all, path);
            let own = choose|own: int| #[trigger]
                first_with(functions, id, own) && all_admitted(functions, profile, functions[own])
                    && forall|to: u32| #[trigger]
                    has_call(functions[own], to) ==> all.contains(to);
            lemma_first_with(functions, id);
            let at = admission::position(functions, id)->0;
            lemma_one_first(functions, id, at, own);
            lemma_blocks_admitted(
                functions,
                profile,
                functions[at].name@,
                functions[at].blocks@,
            );
        }
    }
}

/// A stack cell is refused for the first of its parts that stands in the way: a
/// runtime extent, a demanded alignment, a missing result, or else what the
/// translator has against it.
pub proof fn law_stack_cells_are_refused_for_a_part(cell: Alloca)
    ensures
        cell.has_count ==> admission::alloca_rejection_kind(cell) == "alloca_count_some"@,
        !cell.has_count && cell.has_align ==> admission::alloca_rejection_kind(cell)
            == "alloca_align_some"@,
        !cell.has_count && !cell.has_align && !cell.has_result ==> admission::alloca_rejection_kind(
            cell,
        ) == "alloca_no_result"@,
        !cell.has_count && !cell.has_align && cell.has_result ==> match cell.rejection {
            Some(rejection) => admission::alloca_rejection_kind(cell) == rejection.kind@
                && admission::alloca_rejection_detail(cell) == rejection.detail@,
            None => admission::alloca_rejection_kind(cell) == "admissible_but_rejected"@,
        },
{
}

} // verus!
