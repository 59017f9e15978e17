# brain

A command-line assistant for Rust projects. It keeps the project's source
files, cleaned of comments, in a SQLite store, and asks a language model
questions with a context built from them: the outcome of `cargo check`, a
summary of past conversations, the files the question is about, a skeleton
of every file's item signatures, and the recent conversation.

- `src/` is the library, verified with Verus: text cleaning (`cleaner`),
  signature skeletons (`skeleton`), file records and change filtering
  (`scanner`), `cargo check` reports (`error_context`), relevance and context
  composition (`memory`), chat decisions (`chat`), request building and the
  retry policy (`api`), the character-level text model they share (`text`),
  the regex calls (`patterns`), and properties over all inputs (`laws`).
- `app/` is the program around it: the command line, the SQLite store, the
  directory walk, running `cargo check`, and the HTTP calls to the model.
- `tests/` runs the library on concrete inputs.
