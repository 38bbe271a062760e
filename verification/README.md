# glimmer_weave

Front end and native back end pieces of Glimmer-Weave, a small scripting
language whose keywords read like prose (`bind x to 42`, `chant f(n) then ...
end`), written in Verus with their behaviour stated as contracts and proved.

Layout of `src/`:

- `text`, `source_location`, `token`, `ast`: shared values (texts, source
  positions, tokens, syntax tree); `ast_copy`: copies of syntax trees with
  the value of the tree they copy.
- `lexer`: source text to tokens.
- `parser`: the parser's token cursor and type annotations;
  `parser::grammar` states the expression grammar as spec functions and
  `parser::expressions` parses expressions, proved to follow it;
  `parser::program` states the statement grammar (bindings, `should`,
  loops, `chant`, `form`, `variant`, `match`, `attempt`, modules with
  `grove`, `summon`, `gather` and `offer`, traits with `aspect` and
  `embody`) and
  `parser::statements` parses whole programs, proved to follow it.
- `borrow_checker`, `lifetime_checker`: ownership and lifetime rules over the
  syntax tree.
- `monomorphize`: the specialisation pass: generic functions are collected,
  their instantiations found in the order of their names and type
  arguments, one specialised function is made for each, and calls are
  rewritten to call it; also the names of specialised functions and the
  substitution of concrete types for type parameters.
- `codegen_rules`, `codegen`: x86-64 assembly generation, with the emitted
  code stated as a function of the syntax tree.
- `native_runtime`: the assembly of the runtime support routines.
- `elf`: ELF64 object file layout and encoding.
- `bytecode`: the bytecode instruction set, jump patching and listings.
- `bytecode_rules`, `bytecode_compiler`: compiling syntax trees to register
  bytecode (registers, scopes, constants, jumps, tail calls, pattern
  tests), with each compilation step stated as a function of the compiler
  state and the syntax tree.
- `module_resolver`: import path resolution, loading and caching modules
  from their tokens, module information and dependency cycle detection.
- `environment`: the interpreter's variable store: nested scopes, `bind`
  bindings that cannot be changed and `weave` bindings that can.
- `error_formatter`: diagnostics with source context.
- `repl`: deciding whether interactive input is complete.

`app/` holds the bytecode chunk and its constant pool, whose numbers are
floating-point values: it turns a compiled chunk's number literals into
floats.
