# metel

The front end of the Metel language as a verified library: what the compiler decides about a
program between parsing it and running it, with contracts that Verus proves.

- `src/elaborate`: from the syntax tree of a checked module to its typed tree.
- `src/move_check`: use of moved values, over typed trees. A generic body is elaborated once with
  stand-ins for its type parameters, and then checked like any other; one that cannot be is listed
  with the reason.
- `src/coherence.rs`, `src/type_alias`: overlapping and orphan impls; transparent type aliases.
- `src/module_loader.rs`: which files a program is made of. The loader says what it has to find
  out next, and is told.
- `src/evaluator`: the builtins, and the types of run-time values.
- `src/grammar_*.rs`: the page of the language reference that shows the grammar.

Laws that relate several functions are public proof functions whose names begin with `law_`.

`app/` is the command line: files, streams, clocks and floats. `tests/` runs the library on
programs and values.
