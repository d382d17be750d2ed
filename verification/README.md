# ein

The front half of the compiler of the Ein language, verified with Verus: the
desugaring passes, the transformations that run on typed modules, name
qualification and renaming, and the type utilities they rely on (reference
resolution, equality, comparability, canonicalization of union types).

- `src/types.rs`, `src/ast.rs`, `src/module.rs`: the types, expressions and
  modules of the language, each with a mathematical model (`@`).
- `src/convert.rs`: a bottom-up traversal of expressions that threads a
  converter's state, with lemmas that lift per-node facts to whole modules.
- `src/desugar/`, `src/transform/`, `src/passes/`: the passes. Each states its
  result over spec functions of the models; most come with a proof function
  that says what no longer occurs in the output.
- `src/reference_type_resolver.rs`, `src/type_equality_checker.rs`,
  `src/type_comparability_checker.rs`, `src/type_canonicalizer.rs`,
  `src/expression_type_extractor.rs`, `src/type_order.rs`: type utilities,
  specified with explicit fuel where the computation may not end. A chain of
  type references that comes back to a name it has passed is reported as a
  circular reference; the members of a union are laid out in the ordering of
  types.
- `src/global_name_*.rs`, `src/record_id_qualifier.rs`,
  `src/module_interface_compiler.rs`: names and module interfaces.

Numbers in expressions are kept as the bits of their double value, so that no
floating-point arithmetic is needed. Code generation is not part of this
crate.
