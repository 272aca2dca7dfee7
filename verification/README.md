# trust_mc_native

The native driver of a model checker, as a verified library: it admits bundles and
requests, lowers typed Horn-clause obligations to solver problems, unrolls loops to
look for refutations, and keeps account of the evidence and the authority of what
was solved. Each function states in its contract what it returns, and Verus proves
it.

## Layout

- `src/` is the library.
  - Requests and bundles: `facade`, `admission`, `bundle`, `grade`.
  - Typed problems: `vc` and `chc` are the two problem languages, `lowering` goes
    from one to the other, with `overflow` for overflow predicates and `bridge` and
    `rewrite` for the elimination of integer bridges; `semantics` says what terms
    and clauses mean.
  - Refutation by unrolling: `graph`, `grounding`, `unroll`, `ladder`.
  - Solving: `identity`, `lanes`, `solve`, `runner`, `replay`.
  - Evidence: `evidence`, `documents`, `candidates`, `verdicts`, `seal`,
    `transport`, `copies`.
  - Laws over several of these: `bridge_laws`, `unroll_laws`, `ladder_laws`,
    `identity_laws`, `replay_laws`, `seal_laws`, `bundle_laws`, and the functions
    named `law_` elsewhere.
- `tests/` runs the library.
- `app/` is what surrounds it: threads, the environment, serialized forms, and the
  calls into the solver, the core and the compiler.

The solver, the core and the compiler are handed to the library as functions. A
contract that involves one of them says what the library does with each answer.

What is trusted rather than proved is marked `external_body`: the functions of
`serde_json` in `json`, the handles of `std::sync::Arc` in `shared`, and the reading
of UTF-8 in `text`.
