# pup_commands

The logic of the `pup` Datadog command line, verified with Verus.

- `src/` is the library: option checks, request bodies and query parameters,
  the reading of API responses, the service catalog schema migration, the alias
  table, retry decisions and the other rules of the commands, each with its
  contract. Calls into outside crates (regex, chrono, url, serde_json,
  serde_norway, shell-words, gethostname) and a few std functions stand behind
  trusted wrappers whose contracts say what those crates document.
- `src/idp/` holds the internal developer portal commands: entity queries and
  their paging, entity summaries and context, and the catalog migration.
- `app/` is the command line around the library: argument parsing, files,
  standard input and output.
- `tests/` runs the library on concrete values.
