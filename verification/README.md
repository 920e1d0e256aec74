# bugsink

A command-line client for [Bugsink](https://www.bugsink.com/), the self-hosted error
tracker, whose decision-making core is verified with Verus.

- `src/` is the verified library. Every function states what it returns in its contract,
  over mathematical models of its values (`JsonValue` for JSON, `Seq<char>` for text):
  - `text`, `json`: string helpers, the JSON model, and reading and writing JSON text through
    `serde_json`;
  - `client`: percent-encoding, cursor extraction, the API base URL, and the mapping from
    HTTP status and body to an error;
  - `paging`, `lookup`: walking cursor pagination, and resolving project, team and event
    references to ids;
  - `config`, `config_file`, `account`: the accounts configuration, its data and YAML text
    (through serde_yaml) as written to and read from `config.yaml`, and which credentials
    a command uses;
  - `cli`, `commands`: the parsed command line, and for each command the request it sends and
    what it prints, and where the API token comes from; `commands::enroll` is the step
    function that stores credentials only after they passed verification (or verification
    was skipped);
  - `error`, `output`, `readme`, `clock`, `secrets`: error envelopes and exit codes, YAML and
    JSON output, the agent manual, RFC 3339 timestamps, and the choice of secret store.
- `app/` is the program: argument parsing with clap, HTTP with ureq, the configuration file,
  the keystore, prompts and printing.
- `tests/` runs the library on concrete values.

Laws that span functions are stated and proved as public proof functions, for instance
`client::lemma_seg_round_trip` (decoding what `seg` encodes gives the text back),
`paging::lemma_page_path_cursor` (the next-page path carries the cursor that a `next` link
reads back), `paging::lemma_take_items_limit` (a listing never exceeds its limit, zero included),
`config_file::lemma_config_round_trip` (the configuration data reads back as written),
`config::lemma_find_after_insert` (an account reads back as stored) and
`client::lemma_base_url` (the API base is normalized once).
