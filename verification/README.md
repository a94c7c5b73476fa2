# linear-cli

A command line for [Linear](https://linear.app), with its logic verified by Verus.

- `src/` is the library `linear_cli`. It decides what is sent to the API, what an
  answer means, which page comes next, where a key or a token is read from, and
  what is shown. Each function states what it returns; `pub proof fn` items state
  what holds across functions.
- `app/` is the program around it: arguments, files, the OS keyring, the network
  and the terminal.
- `tests/` runs the library with the crates that it calls.

Text is a sequence of characters in contracts (`text`), a JSON value is a tree of
such texts and numbers (`json`), and a failure is a chain of contexts over its
cause (`error`). What comes from another crate stands behind a function marked
`external_body`, whose doc comment names the call and says what is believed of it.
