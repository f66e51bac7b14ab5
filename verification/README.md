# monkey

An interpreter, compiler and virtual machine for the Monkey language, written in Verus.

- `src/` is the verified library: lexer, parser (`parser`, with its model in `parser_model`),
  tree-walking interpreter (`interpreter`), bytecode (`compiler::code`), symbol tables,
  compiler (`compiler`, with its model in `compiler::model`), virtual machine (`vm`, with its
  model in `vm::model`), built-in functions, values and error messages, and the check of the
  REPL for incomplete input (`repl`). Each public function states its result over a
  mathematical model of the values it works on.
- `app/` is the command-line program: `monkey [-c|-i] [file]` runs a file or starts a REPL on
  the compiler and virtual machine (`-c`, the default) or on the interpreter (`-i`).
- `tests/` holds the tests.
