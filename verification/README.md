# pol

An RPN (reverse Polish notation) calculator with a REPL and a pipe mode,
whose logic is verified with Verus. The stack persists across lines.

## Layout

- `src/` — the verified library:
  - `parser.rs`: splitting a line into words and words into tokens
    (operators `+ - * / ^ %`, commands `clear help pop quit undo sqrt`,
    rotations `r`, `r<N>`, `r-`, `r-<N>`, `mode [arg]`, and number literals
    by the grammar of double literals);
  - `engine.rs`: the stack of doubles (held as IEEE 754 bit patterns) with
    its undo history, and the processing of tokens and lines;
  - `session.rs`: the display mode and the `mode` and `help` words;
  - `display.rs`: showing the stack, top first, on one line (`[3 2 1]`) or
    one value per line (`3. 3`, `2. 2`, `1. 1`);
  - `error.rs`: the errors and their messages;
  - `laws.rs`: properties that span several operations (undo reverts a
    change, failed operations change nothing, rotations compose, lines
    compose, blank lines have no tokens).
- `app/main.rs` — the command: arguments, the REPL and pipe loops, and the
  floating-point work (the arithmetic and the text of a double), which the
  library receives through an evaluator.
- `tests/` — the tests.
