# lox

A Lox interpreter whose front end is verified with Verus.

- `src/` is the verified library:
  - `lexer`: the scanner. `scan` in `lexer/mod.rs` says what each call of
    `Lexer::next` produces; `lexer/laws.rs` proves that scanning moves forward,
    that the end is final, that a whole run produces at most one item per
    character and covers the source in order, and that each token reports the
    line of its start.
  - `parser`: the recursive-descent parser. `parser/grammar.rs` writes the
    grammar as functions on token sequences, and every parsing method is proved
    to do what its rule says, errors and recovery included. `parser/ids.rs` and
    the contracts of the parsing methods show that every expression node gets an
    id of its own; `parser/laws.rs` bounds the number of statements by the number
    of tokens. `Expr::pretty_print` prints expressions as `parser/expr.rs` says.
  - `resolver`: finds, for each variable use, how many scopes out its variable
    was declared. `resolver/model.rs` states resolution on the syntax tree;
    `resolver/laws.rs` proves that it keeps the scopes it finds and the depths
    already recorded, and what the recorded depth means.
  - `operators`: which operand sorts each operator accepts and what it then does.
  - `runtime`: how loops and calls go on after their body ran, and the
    evaluator's error messages.
  - `text`: small string helpers.
- `app/` is the command-line program (`tokenize`, `parse`, `evaluate`, `run`)
  and the tree-walking evaluator, which computes with floating-point numbers and
  shares environments through `Rc<RefCell<..>>`.
- `tests/` holds the tests of the library.
