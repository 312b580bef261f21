# j2bit

The front end of a compiler for a small subset of Java: a lexer and a
recursive-descent parser, verified with Verus.

- `src/lexer.rs`: tokens, the lexical grammar (`lex`) as spec functions, and
  `tokenize`, proved to compute it; laws of the token sequence.
- `src/ast.rs`: the syntax tree and its model.
- `src/grammar.rs`: the grammar, as spec functions from tokens and a position.
- `src/parser.rs`: `parse`, proved to compute the grammar.
- `src/progress.rs`: every grammar rule moves forward.
- `src/front.rs`: `parse_source`, from text to syntax tree.
- `src/text.rs`: character classes (white space is written out; the Unicode
  alphabetic and alphanumeric classes call std) and string helpers.
- `app/main.rs`: the command line (`check`, `compile`).

Float literals keep their source text; the command line turns it into a
number when it shows a token.
