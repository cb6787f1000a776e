# Whisp

Whisp is a small scripting language: integers, booleans, strings, arrays,
variables with lexical blocks, `if`/`elif`/`else`, `while` and `for` loops,
functions, and the built-ins `print`, `max` and `min`.

The library in `src/` is written in Verus and verified:

- `lexer`, `token`: source text to tokens, specified by `lex_step` and `lex_results`.
- `parser`: an LL(2) recursive-descent parser; `parser::grammar` states, as
  spec functions, what every parsing function yields, and the executable
  parser is proved to follow it.
- `tree`, `ops`, `symbol`: the syntax tree, the operations, the table of
  declared names.
- `object`, `environment`, `runtime`: values, scopes of bindings, and the
  interpreter; `runtime::semantics` states what evaluating a tree does, and
  `runtime::interpreter` is proved to follow it.
- `whisp`: a session (parse, then evaluate, with names and bindings kept
  between inputs); `module`, `importer`: modules run in a session of their own.
- `cli`: the decisions of the interactive prompt.
- `ast`, `value`, `interpreter`: the first forms of the tree, the values and
  the interpreter.

`app/` holds the interactive prompt (line editing, printing), and `tests/`
the tests.
