# aetherscript

A front end for the AetherScript V2 language and two MIR optimization
passes, written in Verus: every function carries a contract that Verus
proves.

## Layout

- `src/error.rs`: source locations and the lexer, parser and semantic errors.
- `src/text.rs`: small text helpers (decimal text, literal comparison).
- `src/lexer/v2.rs`: the V2 lexer; its output is a well-formed token stream
  (non-empty, ending in the only `Eof`).
- `src/ast.rs`: the abstract syntax tree.
- `src/parser/v2/`: the V2 parser. Binary expressions are written in braces
  (`{a + b}`) and conditionals with `when`.
- `src/parser/extended/`: the extended V2 parser. It adds operator
  precedence (braces optional), `if`, `try`/`catch`/`finally` and `throw`,
  generic parameters and `where` clauses, traits with methods and axioms,
  import aliases, labeled call arguments, and applies the annotations written
  before a function (`@intent`, `@pre`, `@post`, `@invariant`, `@algo`,
  `@perf`, `@complexity`, `@thread_safe`, `@may_block`) to its metadata.
- `src/parser/core_syntax.rs` and `src/parser/core_items.rs`: the core
  language of both parsers (statements, functions, structs, enums,
  constants, imports, modules and programs over core expressions, types and
  patterns) and where it is read from in a token stream. The parsers state
  exactly what they return on it.
- `src/mir.rs`: the MIR: functions of basic blocks of statements. Its tables
  (locals, blocks, functions) are lists of `(key, value)` entries.
- `src/optimizations/constant_propagation.rs`: replaces, inside each block,
  uses of a local last assigned a constant by that constant.
- `src/optimizations/inlining.rs`: replaces calls of small single-block
  functions by their bodies on fresh locals.

Every parsing method keeps the token stream well formed, never moves
backwards and, on success, has consumed at least one token. Types and
patterns are stated on every input by their shape, which leaves out source
locations; expressions (literals,
variables, unary and binary operators, calls, index, field and method
accesses, struct constructions, enum variants, array and map literals, match and parenthesized expressions, ranges, `&` and `&mut`, lambdas with an expression body), statements, items, functions and traits with type parameters and `where` clauses, modules and programs
are stated exactly wherever the tokens spell the core language, and by the
shape of the result elsewhere; `where` clauses are stated exactly on every input. A lambda's block body is stated
exactly when it starts with a statement keyword. Module parsing states that a refused first
item is reported and that the items after the point where recovery stops
are kept. The passes' contracts state their results exactly, over views of the MIR in which
vectors are sequences.

Floating-point values are kept as the text they were written with.

## Tests

`tests/` holds the parser tests of both parsers, tests of the extended
parser's additions, tests of the core language's results, and tests of the
optimization passes.
