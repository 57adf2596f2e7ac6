# webcontext

`wctx` manages the context of a web project (architecture, constraints,
security) in Git branches: a `master` branch holds the path mapping, one root
branch per category holds version branches (`v1`, `v2`, ...), and each entry
lives on a branch of its own.

## Layout

- `src/` — the library, written in Verus and verified:
  - `text` — string operations (`lines`, `trim`, `find`, `join`, ...) with their
    specifications;
  - `strmap` — a string-keyed map that keeps the order of first insertion;
  - `registry` — the path mapping, lookups under the latest version, branch codes;
  - `version` — version branch names, the latest version, the next one;
  - `entries` — what creating an entry, a category or a version writes, and the
    repository check;
  - `markdown` — reading entry documents into sections and rewriting a field;
  - `generate` — collecting a version's entries into prompt context;
  - `scanner` — project type, name, tech stack, layout and security markers;
  - `config` — the configuration and the config command;
  - `cli`, `repo_paths` — the command line as plain values and repository paths.
- `app/` — the program: command-line parsing, Git, files, terminal and JSON.
- `tests/` — tests of the library.
