# schiro

A compiler front end for SchiroLang, verified with Verus.

- `src/` is the library: the lexer (`lexer`, `token`), the syntax trees
  (`ast`, `tree_copy`), the parser (`parser`), name resolution and type
  checks (`scope`, `resolve`, `check`, `error`, `semantic`), the front end as
  one step (`pipeline`), the machine types of source types (`machine`) and
  the lowering of functions to instruction-builder steps (`lower`).  Each
  function states what it returns or changes in `requires`/`ensures`
  clauses over spec functions, and Verus proves it.
- `tests/` exercises the library on concrete programs.
- `app/` is the command-line program: argument handling, files, and the
  LLVM back end (through inkwell), which performs the lowering steps and
  writes and links the object file.
