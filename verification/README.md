# armour_lang

A verified library for the Armour policy language: labels and their
matching, the lexer and parser of the language, types and the type checker,
literals and the interpreter, policies and metadata. Every function in
`src/` carries a contract that Verus proves; calls into the `regex`, `base64`,
`url` and `petgraph` crates and a few `std` functions stand behind small trusted
wrappers whose contracts say what those crates document.

Layout:

- `src/text.rs`, `src/strmap.rs`: text helpers and an ordered string map.
- `src/regexes.rs`: the trusted wrappers around `regex`.
- `src/labels.rs`: labels, patterns and matching, with their laws.
- `src/lexer.rs`, `src/grammar.rs`, `src/parsing.rs`, `src/parser.rs`: the
  token stream, the grammar as spec functions, and the parser proved
  against it.
- `src/types.rs`, `src/builtins.rs`, `src/headers.rs`: types and the
  signatures of built-in and declared functions.
- `src/checker.rs`, `src/decls.rs`: the type checker, and checking of whole
  blocks, expressions and function declarations.
- `src/expressions.rs`, `src/literals.rs`, `src/interpret.rs`,
  `src/evaluate.rs`: expressions, values and the evaluator.
- `src/netvals.rs`: addresses, identities, connections, HTTP requests and
  responses, and the built-in functions on them.
- `src/program.rs`: loading a program (headers, checked code, calls,
  external services), rejecting call cycles, and cutting it down to what
  given functions reach.
- `src/proxy.rs`: the decisions of a proxy's policy actor.
- `src/meta.rs`, `src/policies.rs`: metadata and policies.
- `src/graph.rs`, `src/launch.rs`, `src/web.rs`, `src/pretty.rs`: the pieces
  of the tools that compute text.
- `tests/`: tests of the library; `app/`: a small command-line front end.
