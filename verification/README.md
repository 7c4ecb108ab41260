# c1_parser

A verified recognizer for the C1 teaching language.

- `src/token.rs` – token kinds and token data.
- `src/lexer.rs` – the specification of lexing (`lex`) and the lexer (`tokenize`, `C1Lexer`).
- `src/grammar.rs` – the grammar as spec functions over token kinds (`sp_program`, ...).
- `src/parser.rs` – `C1Parser`, one method per nonterminal, each proved to follow its spec function.
- `src/text.rs` – building error messages (decimal numbers, token text).
- `src/bounds.rs`, `src/window.rs` – where recognition ends and what it reads.
- `src/laws.rs` – laws: programs concatenate, only token kinds matter, blank text is the empty program.
