# posthog_cli_rs

A command-line client for PostHog (`posthog login`, `posthog config set`,
`posthog config show`) whose decisions are verified with Verus.

- `src/` — the verified library:
  - `config.rs`: resolution of the configuration from the environment, the
    local `.posthog.json` and the global config file; the checks and the
    merge of `config set` / `login`; the paths of the global config.
  - `output.rs`: the `--fields` projection of JSON results, the JSON
    envelope of errors, and their JSON text (compact, or indented with
    `--pretty`), written by serde_json.
  - `errors.rs`: error codes and errors.
  - `json.rs`: the JSON values the client prints, with their model.
  - `commands/config.rs`, `commands/login.rs`: the decisions of the
    subcommands — key masking; the steps of a login (region, key, project,
    then the values to save), in an order their types enforce; the walk
    over the organizations' project lists.
  - `text.rs`: trimming, splitting, decimal numbers, string comparisons.
- `app/` — the program: argument parsing, files, environment, terminal,
  browser and HTTP around the library, and serde's derives on copies of
  the library's data types.
- `tests/` — tests of the library on concrete values.
