# glot

An i18n linter for Next.js projects that use `next-intl`: it finds hardcoded
text in JSX, the translation keys that code uses, keys the message files lack
or no longer need, values other locales lack, leave untranslated or give
another type, and it can insert suppression comments or delete unused keys.

The library in `src/` is written and proved with Verus: each public function
states what it returns (or how it changes its `&mut` arguments) in its
`ensures`, and the laws of the library stand as public proof functions.

Layout:

- `src/`: the library.
  - `visitor.rs`: the walk that finds the keys a file uses; `WalkTrace` and the
    `w_*` relations state it exactly.
  - `collector.rs`, `registry.rs`, `registries.rs`: the key objects, arrays,
    imports, schema functions and translation props of every file.
  - `hardcoded.rs`: hardcoded text in JSX.
  - `value_analyzer.rs`, `keys.rs`, `binding_context.rs`: resolving dynamic keys.
  - `annotation_store.rs`, `comment.rs`, `directives.rs`, `glob.rs`:
    `glot-message-keys` annotations and disable comments.
  - `check_context.rs`, `shared.rs`, `file_analyzer.rs`: the data of a run,
    each part computed once (the parsed files among them, from what reading
    and parsing each file gave).
  - `messages.rs`: message files flattened into dotted keys and value types.
  - `rules.rs`: missing keys, keys other locales lack, untranslated values
    and values of another type.
  - `runner.rs`, `clean.rs`, `commands.rs`, `summaries.rs`, `report.rs`,
    `run_result.rs`, `edits.rs`, `actions.rs`: the commands' decisions, their
    reports and the edits they make.
- `app/`: the `glot` command: command line, file reading and writing,
  parsing with swc, printing.
- `tests/`: the tests, run against the compiled library.

Paths are handled as on Unix: a path is absolute when it starts with `/`.
